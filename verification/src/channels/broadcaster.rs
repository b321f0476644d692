//! The producing end that feeds every channel it has been wired to.

use crate::channels::channel::SendError;
use crate::channels::fabric::{Fabric, FabricState};
use crate::channels::receiver::ReceiverHandle;
use crate::ports::Ports;
use crate::task::Poll;
use std::task::Waker;
use vstd::prelude::*;

verus! {

/// No target of the list is full.
pub open spec fn none_full(fabric: FabricState, targets: Seq<usize>) -> bool {
    forall|j: int|
        0 <= j < targets.len() ==> !fabric.channels[(#[trigger] targets[j]) as int].is_full()
}

/// `targets[k]` is full and no target before it is.
pub open spec fn first_full(fabric: FabricState, targets: Seq<usize>, k: int) -> bool {
    &&& 0 <= k < targets.len()
    &&& fabric.channels[targets[k] as int].is_full()
    &&& none_full(fabric, targets.take(k))
}

/// The fabric after `waker` has joined the list of producers that wait
/// for room in `channel`.
pub open spec fn await_room_at(fabric: FabricState, channel: usize, waker: Waker) -> FabricState {
    fabric.set_channel(channel, fabric.channels[channel as int].register_tx(waker))
}

/// What sending `item` to every target in turn answers: the answer of the
/// first target that refuses, and success if none does.
pub open spec fn send_all_result(fabric: FabricState, targets: Seq<usize>, item: u64) -> Result<
    (),
    SendError<u64>,
>
    decreases targets.len(),
{
    if targets.len() == 0 {
        Ok(())
    } else {
        let first = fabric.channels[targets[0] as int];
        if first.push_result(item) is Ok {
            send_all_result(
                fabric.set_channel(targets[0], first.push(item)),
                targets.skip(1),
                item,
            )
        } else {
            first.push_result(item)
        }
    }
}

/// The fabric after sending `item` to every target in turn: the targets
/// before the first that refuses have the message, the others do not.
pub open spec fn send_all(fabric: FabricState, targets: Seq<usize>, item: u64) -> FabricState
    decreases targets.len(),
{
    if targets.len() == 0 {
        fabric
    } else {
        let first = fabric.channels[targets[0] as int];
        if first.push_result(item) is Ok {
            send_all(fabric.set_channel(targets[0], first.push(item)), targets.skip(1), item)
        } else {
            fabric
        }
    }
}

/// Channel `c` is one of the targets.
pub open spec fn feeds(targets: Seq<usize>, c: int) -> bool {
    exists|j: int| 0 <= j < targets.len() && #[trigger] targets[j] == c
}

/// The fabric after the consumer of every target has been woken.
pub open spec fn wake_receivers(fabric: FabricState, targets: Seq<usize>) -> FabricState {
    FabricState {
        channels: Seq::new(
            fabric.channels.len(),
            |c: int|
                if feeds(targets, c) {
                    fabric.channels[c].wake_rx()
                } else {
                    fabric.channels[c]
                },
        ),
        ..fabric
    }
}

/// The outward mirror of a [`Broadcaster`]: delivers targets to it.
#[derive(Clone, Copy, Debug, PartialEq, Eq)]
pub struct BroadcasterHandle {
    inbox: usize,
}

impl BroadcasterHandle {
    /// The index of the broadcaster's control inbox.
    pub closed spec fn inbox_spec(&self) -> usize {
        self.inbox
    }

    #[verifier::when_used_as_spec(inbox_spec)]
    pub fn inbox(&self) -> (id: usize)
        ensures
            id == self.inbox_spec(),
    {
        self.inbox
    }

    /// Tells the broadcaster to feed `rx`'s channel as well, from its next
    /// readiness check on. A broadcaster that is gone is told nothing.
    pub fn connect(&self, rx: &ReceiverHandle, fabric: &mut Fabric)
        requires
            old(fabric)@.wf(),
            old(fabric)@.has_inbox(self.inbox()),
            old(fabric)@.has_channel(rx.channel()),
        ensures
            final(fabric)@ == old(fabric)@.post(self.inbox(), rx.channel()),
            final(fabric)@.wf(),
    {
        fabric.post(self.inbox, rx.channel());
    }
}

/// The producing end that feeds any number of channels. Targets are only
/// ever added.
#[derive(Debug)]
pub struct Broadcaster {
    inbox: usize,
    targets: Vec<usize>,
}

impl Broadcaster {
    /// The index of the broadcaster's control inbox.
    pub closed spec fn inbox_spec(&self) -> usize {
        self.inbox
    }

    #[verifier::when_used_as_spec(inbox_spec)]
    pub fn inbox(&self) -> (id: usize)
        ensures
            id == self.inbox_spec(),
    {
        self.inbox
    }

    /// The channels that the broadcaster feeds, in the order in which they
    /// were added.
    pub closed spec fn targets(&self) -> Seq<usize> {
        self.targets@
    }

    /// How many channels the broadcaster feeds.
    pub fn target_count(&self) -> (count: usize)
        ensures
            count == self.targets().len(),
    {
        self.targets.len()
    }

    /// The `index`-th channel that the broadcaster feeds.
    pub fn target(&self, index: usize) -> (channel: usize)
        requires
            index < self.targets().len(),
        ensures
            channel == self.targets()[index as int],
    {
        self.targets[index]
    }

    /// Adds `rx`'s channel to the targets at once.
    pub fn connect(&mut self, rx: &ReceiverHandle)
        ensures
            final(self).inbox() == old(self).inbox(),
            final(self).targets() == old(self).targets().push(rx.channel()),
    {
        self.targets.push(rx.channel());
    }

    /// Reads the control inbox, then asks whether a message may be sent to
    /// every target. If not, the waker waits at the first full target.
    pub fn poll_ready(&mut self, fabric: &mut Fabric, waker: &Waker) -> (res: Poll<
        Result<(), SendError<u64>>,
    >)
        requires
            old(fabric)@.wf(),
            old(self).wired_in(old(fabric)@),
        ensures
            final(self).inbox() == old(self).inbox(),
            final(self).targets() == old(self).targets() + old(fabric)@.inboxes[old(
                self,
            ).inbox() as int].pending,
            match res {
                Poll::Pending => exists|k: int, registered: Waker|
                    {
                        &&& first_full(
                            old(fabric)@.drain(old(self).inbox()),
                            final(self).targets(),
                            k,
                        )
                        &&& final(fabric)@ == #[trigger] await_room_at(
                            old(fabric)@.drain(old(self).inbox()),
                            final(self).targets()[k],
                            registered,
                        )
                    },
                Poll::Ready(answer) => {
                    &&& answer == Ok::<(), SendError<u64>>(())
                    &&& none_full(old(fabric)@.drain(old(self).inbox()), final(self).targets())
                    &&& final(fabric)@ == old(fabric)@.drain(old(self).inbox())
                },
            },
            final(fabric)@.wf(),
            final(self).wired_in(final(fabric)@),
    {
        let mut taken = fabric.drain(self.inbox);
        let ghost pending = taken@;
        self.targets.append(&mut taken);
        let ghost drained = fabric@;
        assert forall|j: int| 0 <= j < self.targets().len() implies drained.has_channel(
            #[trigger] self.targets()[j],
        ) by {
            if j < old(self).targets().len() {
                assert(self.targets()[j] == old(self).targets()[j]);
            } else {
                let k = j - old(self).targets().len();
                assert(self.targets()[j] == old(fabric)@.inboxes[self.inbox as int].pending[k]);
            }
        }
        let mut i: usize = 0;
        while i < self.targets.len()
            invariant
                i <= self.targets@.len(),
                self.inbox() == old(self).inbox(),
                self.targets() == old(self).targets() + pending,
                pending == old(fabric)@.inboxes[old(self).inbox() as int].pending,
                drained == old(fabric)@.drain(old(self).inbox()),
                fabric@ == drained,
                drained.wf(),
                self.wired_in(drained),
                none_full(drained, self.targets@.take(i as int)),
            decreases self.targets.len() - i,
        {
            let channel: usize = self.targets[i];
            assert(self.targets()[i as int] == channel);
            if fabric.channel(channel).is_full() {
                fabric.channel_mut(channel).register_tx_waker(waker);
                proof {
                    let registered = choose|registered: Waker|
                        fabric@.channels[channel as int]
                            == #[trigger] drained.channels[channel as int].register_tx(
                            registered,
                        );
                    assert(first_full(drained, self.targets(), i as int));
                    assert(fabric@ == await_room_at(
                        drained,
                        self.targets()[i as int],
                        registered,
                    ));
                }
                return Poll::Pending;
            }
            assert forall|j: int| 0 <= j < i + 1 implies !drained.channels[(
            #[trigger] self.targets@.take(i + 1)[j]) as int].is_full() by {
                if j < i {
                    assert(self.targets@.take(i as int)[j] == self.targets@[j]);
                }
            }
            i += 1;
        }
        assert(self.targets@.take(i as int) =~= self.targets@);
        Poll::Ready(Ok(()))
    }

    /// Hands `item` to every target in turn and stops at the first that
    /// refuses; the targets before it keep the message.
    pub fn start_send(&mut self, fabric: &mut Fabric, item: u64) -> (res: Result<
        (),
        SendError<u64>,
    >)
        requires
            old(fabric)@.wf(),
            old(self).wired_in(old(fabric)@),
        ensures
            *final(self) == *old(self),
            res == send_all_result(old(fabric)@, old(self).targets(), item),
            final(fabric)@ == send_all(old(fabric)@, old(self).targets(), item),
            final(fabric)@.wf(),
    {
        let ghost start = fabric@;
        let mut i: usize = 0;
        assert(self.targets@.skip(0) =~= self.targets@);
        while i < self.targets.len()
            invariant
                i <= self.targets@.len(),
                *self == *old(self),
                start == old(fabric)@,
                fabric@.wf(),
                self.wired_in(fabric@),
                send_all_result(start, self.targets@, item) == send_all_result(
                    fabric@,
                    self.targets@.skip(i as int),
                    item,
                ),
                send_all(start, self.targets@, item) == send_all(
                    fabric@,
                    self.targets@.skip(i as int),
                    item,
                ),
            decreases self.targets.len() - i,
        {
            let channel: usize = self.targets[i];
            let ghost before = fabric@;
            assert(self.targets()[i as int] == channel);
            assert(self.targets@.skip(i as int)[0] == channel);
            assert(self.targets@.skip(i as int).skip(1) =~= self.targets@.skip(i + 1));
            match fabric.channel_mut(channel).push(item) {
                Ok(()) => {},
                Err(refusal) => {
                    assert(fabric@ =~= before);
                    return Err(refusal);
                },
            }
            i += 1;
        }
        Ok(())
    }

    /// Wakes the consumer of every target.
    pub fn poll_flush(&mut self, fabric: &mut Fabric) -> (res: Poll<Result<(), SendError<u64>>>)
        requires
            old(fabric)@.wf(),
            old(self).wired_in(old(fabric)@),
        ensures
            *final(self) == *old(self),
            res == Poll::Ready(Ok::<(), SendError<u64>>(())),
            final(fabric)@ == wake_receivers(old(fabric)@, old(self).targets()),
            final(fabric)@.wf(),
    {
        self.wake_all(fabric);
        Poll::Ready(Ok(()))
    }

    /// Wakes the consumer of every target; the channels stay open.
    pub fn poll_close(&mut self, fabric: &mut Fabric) -> (res: Poll<Result<(), SendError<u64>>>)
        requires
            old(fabric)@.wf(),
            old(self).wired_in(old(fabric)@),
        ensures
            *final(self) == *old(self),
            res == Poll::Ready(Ok::<(), SendError<u64>>(())),
            final(fabric)@ == wake_receivers(old(fabric)@, old(self).targets()),
            final(fabric)@.wf(),
    {
        self.wake_all(fabric);
        Poll::Ready(Ok(()))
    }

    fn wake_all(&self, fabric: &mut Fabric)
        requires
            old(fabric)@.wf(),
            self.wired_in(old(fabric)@),
        ensures
            final(fabric)@ == wake_receivers(old(fabric)@, self.targets()),
            final(fabric)@.wf(),
    {
        let ghost start = fabric@;
        let mut i: usize = 0;
        assert(fabric@.channels =~= wake_receivers(start, self.targets@.take(0)).channels);
        while i < self.targets.len()
            invariant
                i <= self.targets@.len(),
                start.wf(),
                self.wired_in(start),
                fabric@ == wake_receivers(start, self.targets@.take(i as int)),
            decreases self.targets.len() - i,
        {
            let channel: usize = self.targets[i];
            assert(self.targets()[i as int] == channel);
            fabric.channel_mut(channel).wake_rx();
            proof {
                let before = self.targets@.take(i as int);
                let after = self.targets@.take(i + 1);
                assert(after =~= before.push(channel));
                assert forall|c: int| 0 <= c < start.channels.len() implies fabric@.channels[c]
                    == wake_receivers(start, after).channels[c] by {
                    if c == channel {
                        assert(after[i as int] == c);
                    } else if feeds(before, c) {
                        let at = choose|at: int| 0 <= at < before.len() && before[at] == c;
                        assert(after[at] == c);
                    } else if feeds(after, c) {
                        let at = choose|at: int| 0 <= at < after.len() && after[at] == c;
                        assert(before[at] == c);
                    }
                }
                assert(fabric@.channels =~= wake_receivers(start, after).channels);
            }
            i += 1;
        }
        assert(self.targets@.take(i as int) =~= self.targets@);
    }

    /// Gives the broadcaster up: handles that connect later reach nobody.
    pub fn close(self, fabric: &mut Fabric)
        requires
            old(fabric)@.wf(),
            self.wired_in(old(fabric)@),
        ensures
            final(fabric)@ == old(fabric)@.retire(self.inbox()),
            final(fabric)@.wf(),
    {
        fabric.retire(self.inbox);
    }
}

impl Ports for Broadcaster {
    type Handle = BroadcasterHandle;

    open spec fn wired_in(&self, fabric: FabricState) -> bool {
        &&& fabric.has_inbox(self.inbox())
        &&& forall|j: int|
            0 <= j < self.targets().len() ==> fabric.has_channel(#[trigger] self.targets()[j])
    }

    closed spec fn handle_spec(&self) -> BroadcasterHandle {
        BroadcasterHandle { inbox: self.inbox }
    }

    open spec fn after_create(before: FabricState) -> FabricState {
        before.open_inbox()
    }

    closed spec fn handle_after_create(before: FabricState) -> BroadcasterHandle {
        BroadcasterHandle { inbox: before.inboxes.len() as usize }
    }

    fn handle(&self) -> (handle: BroadcasterHandle)
        ensures
            handle.inbox() == self.inbox(),
    {
        BroadcasterHandle { inbox: self.inbox }
    }

    /// Opens a fresh control inbox and returns a broadcaster without
    /// targets that reads it.
    fn create(fabric: &mut Fabric) -> (ports: Broadcaster)
        ensures
            ports.inbox() == old(fabric)@.inboxes.len(),
            ports.targets() == Seq::<usize>::empty(),
    {
        let inbox: usize = fabric.open_inbox();
        assert(fabric@.channels.take(old(fabric)@.channels.len() as int) =~= old(
            fabric,
        )@.channels);
        assert(fabric@.inboxes.take(old(fabric)@.inboxes.len() as int) =~= old(fabric)@.inboxes);
        Broadcaster { inbox, targets: Vec::new() }
    }
}

/// One step of a fan-out: the broadcaster sends a message, or the
/// consumer of the target at an index polls once.
pub enum FanOp {
    Send(u64),
    Receive(int),
}

/// Every target is a channel of the fabric.
pub open spec fn all_wired(fabric: FabricState, targets: Seq<usize>) -> bool {
    forall|j: int| 0 <= j < targets.len() ==> fabric.has_channel(#[trigger] targets[j])
}

/// The fabric after `op`.
pub open spec fn fan_step(fabric: FabricState, targets: Seq<usize>, op: FanOp) -> FabricState {
    match op {
        FanOp::Send(item) => send_all(fabric, targets, item),
        FanOp::Receive(j) => if 0 <= j < targets.len() {
            fabric.set_channel(targets[j], fabric.channels[targets[j] as int].receive())
        } else {
            fabric
        },
    }
}

/// The fabric after every one of `ops`, in order.
pub open spec fn fan_run(fabric: FabricState, targets: Seq<usize>, ops: Seq<FanOp>) -> FabricState
    decreases ops.len(),
{
    if ops.len() == 0 {
        fabric
    } else {
        fan_run(fan_step(fabric, targets, ops[0]), targets, ops.skip(1))
    }
}

/// Every message sent in the course of `ops` is accepted by all targets.
pub open spec fn all_sent(fabric: FabricState, targets: Seq<usize>, ops: Seq<FanOp>) -> bool
    decreases ops.len(),
{
    if ops.len() == 0 {
        true
    } else {
        &&& ops[0] matches FanOp::Send(item) ==> send_all_result(fabric, targets, item) is Ok
        &&& all_sent(fan_step(fabric, targets, ops[0]), targets, ops.skip(1))
    }
}

/// The messages that the broadcaster sends in the course of `ops`, in
/// order.
pub open spec fn produced(ops: Seq<FanOp>) -> Seq<u64>
    decreases ops.len(),
{
    if ops.len() == 0 {
        Seq::empty()
    } else {
        match ops[0] {
            FanOp::Send(item) => seq![item] + produced(ops.skip(1)),
            _ => produced(ops.skip(1)),
        }
    }
}

/// The messages that the consumer of the target at `j` is handed in the
/// course of `ops`, in order.
pub open spec fn observed(fabric: FabricState, targets: Seq<usize>, ops: Seq<FanOp>, j: int) -> Seq<
    u64,
>
    decreases ops.len(),
{
    if ops.len() == 0 {
        Seq::empty()
    } else {
        let rest = observed(fan_step(fabric, targets, ops[0]), targets, ops.skip(1), j);
        let channel = fabric.channels[targets[j] as int];
        match ops[0] {
            FanOp::Receive(k) if k == j && !channel.closed && channel.items.len() > 0 => seq![
                channel.items[0],
            ] + rest,
            _ => rest,
        }
    }
}

/// A message that every target accepts reaches each target once, at the
/// back, and changes nothing else.
pub proof fn lemma_accepted_by_all(fabric: FabricState, targets: Seq<usize>, item: u64)
    requires
        all_wired(fabric, targets),
        targets.no_duplicates(),
        send_all_result(fabric, targets, item) is Ok,
    ensures
        send_all(fabric, targets, item).channels.len() == fabric.channels.len(),
        send_all(fabric, targets, item).inboxes == fabric.inboxes,
        send_all(fabric, targets, item).buffer_size == fabric.buffer_size,
        forall|j: int|
            0 <= j < targets.len() ==> {
                &&& fabric.channels[(#[trigger] targets[j]) as int].push_result(item) is Ok
                &&& send_all(fabric, targets, item).channels[targets[j] as int]
                    == fabric.channels[targets[j] as int].push(item)
            },
        forall|c: int|
            0 <= c < fabric.channels.len() && !feeds(targets, c) ==> (#[trigger] send_all(
                fabric,
                targets,
                item,
            ).channels[c]) == fabric.channels[c],
    decreases targets.len(),
{
    if targets.len() > 0 {
        let head = targets[0];
        let rest = targets.skip(1);
        let next = fabric.set_channel(head, fabric.channels[head as int].push(item));
        assert forall|j: int| 0 <= j < rest.len() implies next.has_channel(
            #[trigger] rest[j],
        ) by {
            assert(rest[j] == targets[j + 1]);
        }
        assert(rest.no_duplicates()) by {
            assert forall|a: int, b: int| 0 <= a < rest.len() && 0 <= b < rest.len() && a
                != b implies rest[a] != rest[b] by {
                assert(rest[a] == targets[a + 1] && rest[b] == targets[b + 1]);
            }
        }
        lemma_accepted_by_all(next, rest, item);
        let done = send_all(fabric, targets, item);
        assert(done == send_all(next, rest, item));
        assert(!feeds(rest, head as int)) by {
            if feeds(rest, head as int) {
                let at = choose|at: int| 0 <= at < rest.len() && rest[at] == head as int;
                assert(targets[at + 1] == targets[0]);
            }
        }
        assert forall|j: int| 0 <= j < targets.len() implies {
            &&& fabric.channels[(#[trigger] targets[j]) as int].push_result(item) is Ok
            &&& done.channels[targets[j] as int] == fabric.channels[targets[j] as int].push(item)
        } by {
            if j > 0 {
                assert(rest[j - 1] == targets[j]);
                assert(targets[j] != targets[0]);
            }
        }
        assert forall|c: int| 0 <= c < fabric.channels.len() && !feeds(targets, c) implies (
        #[trigger] done.channels[c]) == fabric.channels[c] by {
            assert(c != head) by {
                if c == head {
                    assert(targets[0] == c);
                }
            }
            if feeds(rest, c) {
                let at = choose|at: int| 0 <= at < rest.len() && rest[at] == c;
                assert(targets[at + 1] == c);
            }
        }
    }
}

/// Fan-out fidelity: for targets that are all different and were wired
/// before the first message, and as long as every message sent is
/// accepted, each consumer is in the same position as the consumer of a
/// channel fed by one producer: what its channel held followed by what
/// the broadcaster sent is what it was handed followed by what its channel
/// still holds. So every consumer sees the front of the one sequence that
/// the broadcaster produced, and all of it once its channel is drained.
pub proof fn lemma_fan_out(fabric: FabricState, targets: Seq<usize>, ops: Seq<FanOp>, j: int)
    requires
        all_wired(fabric, targets),
        targets.no_duplicates(),
        all_sent(fabric, targets, ops),
        0 <= j < targets.len(),
    ensures
        fabric.channels[targets[j] as int].items + produced(ops) == observed(
            fabric,
            targets,
            ops,
            j,
        ) + fan_run(fabric, targets, ops).channels[targets[j] as int].items,
    decreases ops.len(),
{
    let here = fabric.channels[targets[j] as int];
    if ops.len() == 0 {
        assert(here.items + produced(ops) =~= observed(fabric, targets, ops, j) + here.items);
    } else {
        let next = fan_step(fabric, targets, ops[0]);
        let rest = ops.skip(1);
        match ops[0] {
            FanOp::Send(item) => {
                lemma_accepted_by_all(fabric, targets, item);
            },
            FanOp::Receive(k) => {},
        }
        assert(next.channels.len() == fabric.channels.len());
        assert(all_wired(next, targets)) by {
            assert forall|i: int| 0 <= i < targets.len() implies next.has_channel(
                #[trigger] targets[i],
            ) by {
                assert(fabric.has_channel(targets[i]));
            }
        }
        lemma_fan_out(next, targets, rest, j);
        let there = next.channels[targets[j] as int];
        let tail = observed(next, targets, rest, j) + fan_run(next, targets, rest).channels[
            targets[j] as int].items;
        assert(there.items + produced(rest) == tail);
        match ops[0] {
            FanOp::Send(item) => {
                assert(there == here.push(item));
                assert(here.items + (seq![item] + produced(rest)) =~= here.items.push(item)
                    + produced(rest));
            },
            FanOp::Receive(k) => {
                if k == j && !here.closed && here.items.len() > 0 {
                    assert(there.items == here.items.skip(1));
                    assert(here.items =~= seq![here.items[0]] + here.items.skip(1));
                    assert((seq![here.items[0]] + observed(next, targets, rest, j)) + fan_run(
                        next,
                        targets,
                        rest,
                    ).channels[targets[j] as int].items =~= seq![here.items[0]] + tail);
                    assert(here.items + produced(rest) =~= seq![here.items[0]] + (there.items
                        + produced(rest)));
                } else if 0 <= k < targets.len() && k != j {
                    assert(targets[k] != targets[j]);
                    assert(there == here);
                } else {
                    assert(there.items == here.items);
                }
            },
        }
    }
}

/// The handle of a broadcaster names the broadcaster's control inbox.
pub proof fn lemma_handle_names_inbox(broadcaster: Broadcaster)
    ensures
        broadcaster.handle_spec().inbox() == broadcaster.inbox(),
{
}

/// The handle of the broadcaster that `create` builds names the inbox that
/// `create` opens: the first index that was free.
pub proof fn lemma_created_handle_names_new_inbox(before: FabricState)
    requires
        before.wf(),
    ensures
        <Broadcaster as Ports>::handle_after_create(before).inbox() == before.inboxes.len(),
        <Broadcaster as Ports>::after_create(before).has_inbox(
            <Broadcaster as Ports>::handle_after_create(before).inbox(),
        ),
{
}

/// Every target is open and has room for one more message.
pub open spec fn all_ready(fabric: FabricState, targets: Seq<usize>) -> bool {
    forall|j: int|
        0 <= j < targets.len() ==> {
            &&& !fabric.channels[(#[trigger] targets[j]) as int].closed
            &&& !fabric.channels[targets[j] as int].is_full()
        }
}

/// A message sent when every target is ready reaches every target: for
/// targets that are all different, open and not full, the send succeeds,
/// each target gains the message once, at its back, and nothing else
/// changes. Without targets the message is accepted and dropped.
pub proof fn lemma_ready_send_reaches_all(fabric: FabricState, targets: Seq<usize>, item: u64)
    requires
        fabric.wf(),
        all_wired(fabric, targets),
        targets.no_duplicates(),
        all_ready(fabric, targets),
    ensures
        send_all_result(fabric, targets, item) == Ok::<(), SendError<u64>>(()),
        targets.len() == 0 ==> send_all(fabric, targets, item) == fabric,
        forall|j: int|
            0 <= j < targets.len() ==> (#[trigger] send_all(
                fabric,
                targets,
                item,
            ).channels[targets[j] as int]).items == fabric.channels[targets[j] as int].items.push(
                item,
            ),
        forall|c: int|
            0 <= c < fabric.channels.len() && !feeds(targets, c) ==> (#[trigger] send_all(
                fabric,
                targets,
                item,
            ).channels[c]) == fabric.channels[c],
{
    lemma_ready_is_accepted(fabric, targets, item);
    lemma_accepted_by_all(fabric, targets, item);
    assert forall|j: int| 0 <= j < targets.len() implies (#[trigger] send_all(
        fabric,
        targets,
        item,
    ).channels[targets[j] as int]).items == fabric.channels[targets[j] as int].items.push(
        item,
    ) by {
        assert(fabric.channels[targets[j] as int].push_result(item) is Ok);
    }
}

/// Targets that are all different, open and not full all accept.
proof fn lemma_ready_is_accepted(fabric: FabricState, targets: Seq<usize>, item: u64)
    requires
        fabric.wf(),
        all_wired(fabric, targets),
        targets.no_duplicates(),
        all_ready(fabric, targets),
    ensures
        send_all_result(fabric, targets, item) == Ok::<(), SendError<u64>>(()),
    decreases targets.len(),
{
    if targets.len() > 0 {
        let head = targets[0];
        let rest = targets.skip(1);
        assert(fabric.has_channel(head));
        assert(fabric.channels[head as int].wf());
        assert(fabric.channels[head as int].push_result(item) is Ok);
        let next = fabric.set_channel(head, fabric.channels[head as int].push(item));
        assert(rest.no_duplicates()) by {
            assert forall|a: int, b: int| 0 <= a < rest.len() && 0 <= b < rest.len() && a
                != b implies rest[a] != rest[b] by {
                assert(rest[a] == targets[a + 1] && rest[b] == targets[b + 1]);
            }
        }
        assert forall|j: int| 0 <= j < rest.len() implies {
            &&& next.has_channel(#[trigger] rest[j])
            &&& !next.channels[rest[j] as int].closed
            &&& !next.channels[rest[j] as int].is_full()
        } by {
            assert(rest[j] == targets[j + 1]);
            assert(targets[j + 1] != targets[0]);
        }
        assert(next.wf()) by {
            assert forall|c: int| 0 <= c < next.channels.len() implies (
            #[trigger] next.channels[c]).wf() by {
                assert(fabric.channels[c].wf());
            }
        }
        lemma_ready_is_accepted(next, rest, item);
    }
}

/// Consumers agree: under the conditions of fan-out fidelity, two
/// consumers whose channels were empty at the start and are drained at
/// the end have been handed the same messages in the same order, namely
/// all that was sent.
pub proof fn lemma_consumers_agree(
    fabric: FabricState,
    targets: Seq<usize>,
    ops: Seq<FanOp>,
    a: int,
    b: int,
)
    requires
        all_wired(fabric, targets),
        targets.no_duplicates(),
        all_sent(fabric, targets, ops),
        0 <= a < targets.len(),
        0 <= b < targets.len(),
        fabric.channels[targets[a] as int].items.len() == 0,
        fabric.channels[targets[b] as int].items.len() == 0,
        fan_run(fabric, targets, ops).channels[targets[a] as int].items.len() == 0,
        fan_run(fabric, targets, ops).channels[targets[b] as int].items.len() == 0,
    ensures
        observed(fabric, targets, ops, a) == produced(ops),
        observed(fabric, targets, ops, b) == produced(ops),
{
    lemma_fan_out(fabric, targets, ops, a);
    lemma_fan_out(fabric, targets, ops, b);
    let done = fan_run(fabric, targets, ops);
    assert(fabric.channels[targets[a] as int].items + produced(ops) =~= produced(ops));
    assert(fabric.channels[targets[b] as int].items + produced(ops) =~= produced(ops));
    assert(observed(fabric, targets, ops, a) + done.channels[targets[a] as int].items
        =~= observed(fabric, targets, ops, a));
    assert(observed(fabric, targets, ops, b) + done.channels[targets[b] as int].items
        =~= observed(fabric, targets, ops, b));
}

} // verus!
