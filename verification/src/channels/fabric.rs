//! The table of channels and control inboxes that the endpoints of one
//! network refer to by index.

use crate::channels::channel::{max_capacity, Channel, ChannelState};
use vstd::prelude::*;

verus! {

/// What a control inbox holds, as a mathematical value.
#[verifier::ext_equal]
pub struct InboxState {
    /// The channels that handles have sent and the endpoint has not yet
    /// taken, oldest first.
    pub pending: Seq<usize>,
    /// Whether the endpoint that reads the inbox still exists.
    pub live: bool,
}

/// What a fabric holds, as a mathematical value.
#[verifier::ext_equal]
pub struct FabricState {
    /// The capacity that new channels get.
    pub buffer_size: nat,
    pub channels: Seq<ChannelState>,
    pub inboxes: Seq<InboxState>,
}

impl FabricState {
    /// The buffer size is one a channel can be made with, indices fit the
    /// machine, every channel is well formed, and every channel that waits
    /// in an inbox exists.
    pub open spec fn wf(self) -> bool {
        &&& 0 < self.buffer_size <= max_capacity()
        &&& self.channels.len() <= usize::MAX
        &&& self.inboxes.len() <= usize::MAX
        &&& forall|c: int| 0 <= c < self.channels.len() ==> (#[trigger] self.channels[c]).wf()
        &&& forall|i: int, k: int|
            0 <= i < self.inboxes.len() && 0 <= k < self.inboxes[i].pending.len() ==> (
            #[trigger] self.inboxes[i].pending[k]) < self.channels.len()
    }

    pub open spec fn fresh(buffer_size: nat) -> FabricState {
        FabricState { buffer_size, channels: Seq::empty(), inboxes: Seq::empty() }
    }

    pub open spec fn has_channel(self, id: usize) -> bool {
        id < self.channels.len()
    }

    pub open spec fn has_inbox(self, id: usize) -> bool {
        id < self.inboxes.len()
    }

    pub open spec fn set_channel(self, id: usize, channel: ChannelState) -> FabricState {
        FabricState { channels: self.channels.update(id as int, channel), ..self }
    }

    pub open spec fn set_inbox(self, id: usize, inbox: InboxState) -> FabricState {
        FabricState { inboxes: self.inboxes.update(id as int, inbox), ..self }
    }

    pub open spec fn open_channel(self) -> FabricState {
        FabricState { channels: self.channels.push(ChannelState::fresh(self.buffer_size)), ..self }
    }

    pub open spec fn open_inbox(self) -> FabricState {
        FabricState {
            inboxes: self.inboxes.push(InboxState { pending: Seq::empty(), live: true }),
            ..self
        }
    }

    /// A handle sends `channel` to the inbox: it is queued if the endpoint
    /// is still there, and lost otherwise.
    pub open spec fn post(self, inbox: usize, channel: usize) -> FabricState {
        let before = self.inboxes[inbox as int];
        if before.live {
            self.set_inbox(inbox, InboxState { pending: before.pending.push(channel), ..before })
        } else {
            self
        }
    }

    /// The endpoint takes everything that is queued.
    pub open spec fn drain(self, inbox: usize) -> FabricState {
        self.set_inbox(inbox, InboxState { pending: Seq::empty(), ..self.inboxes[inbox as int] })
    }

    /// The endpoint goes away; what was queued for it is lost.
    pub open spec fn retire(self, inbox: usize) -> FabricState {
        self.set_inbox(inbox, InboxState { pending: Seq::empty(), live: false })
    }

    /// Everything `earlier` had is still here, unchanged; channels and
    /// inboxes may have been added behind it.
    pub open spec fn extends(self, earlier: FabricState) -> bool {
        &&& self.buffer_size == earlier.buffer_size
        &&& earlier.channels.len() <= self.channels.len()
        &&& earlier.inboxes.len() <= self.inboxes.len()
        &&& self.channels.take(earlier.channels.len() as int) == earlier.channels
        &&& self.inboxes.take(earlier.inboxes.len() as int) == earlier.inboxes
    }

    /// What extends an extension extends the first.
    pub proof fn lemma_extends_twice(self, middle: FabricState, last: FabricState)
        requires
            middle.extends(self),
            last.extends(middle),
        ensures
            last.extends(self),
    {
        assert(last.channels.take(self.channels.len() as int) =~= self.channels) by {
            assert forall|c: int| 0 <= c < self.channels.len() implies last.channels[c]
                == self.channels[c] by {
                assert(last.channels.take(middle.channels.len() as int)[c] == middle.channels[c]);
                assert(middle.channels.take(self.channels.len() as int)[c] == self.channels[c]);
            }
        }
        assert(last.inboxes.take(self.inboxes.len() as int) =~= self.inboxes) by {
            assert forall|i: int| 0 <= i < self.inboxes.len() implies last.inboxes[i]
                == self.inboxes[i] by {
                assert(last.inboxes.take(middle.inboxes.len() as int)[i] == middle.inboxes[i]);
                assert(middle.inboxes.take(self.inboxes.len() as int)[i] == self.inboxes[i]);
            }
        }
    }
}

/// One control inbox: the channels sent to an endpoint, and whether the
/// endpoint is still there to take them.
struct Inbox {
    pending: Vec<usize>,
    live: bool,
}

impl View for Inbox {
    type V = InboxState;

    closed spec fn view(&self) -> InboxState {
        InboxState { pending: self.pending@, live: self.live }
    }
}

spec fn channel_states(channels: Seq<Channel>) -> Seq<ChannelState> {
    Seq::new(channels.len(), |c: int| channels[c]@)
}

spec fn inbox_states(inboxes: Seq<Inbox>) -> Seq<InboxState> {
    Seq::new(inboxes.len(), |i: int| inboxes[i]@)
}

/// Owns every channel and control inbox of a network.
pub struct Fabric {
    buffer_size: usize,
    channels: Vec<Channel>,
    inboxes: Vec<Inbox>,
}

impl View for Fabric {
    type V = FabricState;

    closed spec fn view(&self) -> FabricState {
        FabricState {
            buffer_size: self.buffer_size as nat,
            channels: channel_states(self.channels@),
            inboxes: inbox_states(self.inboxes@),
        }
    }
}

impl Fabric {
    /// Makes a fabric without channels whose channels will hold up to
    /// `buffer_size` messages each.
    pub fn new(buffer_size: usize) -> (fabric: Fabric)
        ensures
            fabric@ == FabricState::fresh(buffer_size as nat),
    {
        let fabric = Fabric { buffer_size, channels: Vec::new(), inboxes: Vec::new() };
        assert(fabric@.channels =~= Seq::empty());
        assert(fabric@.inboxes =~= Seq::empty());
        fabric
    }

    pub fn buffer_size(&self) -> (size: usize)
        ensures
            size == self@.buffer_size,
    {
        self.buffer_size
    }

    pub fn channel_count(&self) -> (count: usize)
        ensures
            count == self@.channels.len(),
    {
        self.channels.len()
    }

    pub fn inbox_count(&self) -> (count: usize)
        ensures
            count == self@.inboxes.len(),
    {
        self.inboxes.len()
    }

    /// How many channels wait in `inbox` to be taken.
    pub fn pending_count(&self, inbox: usize) -> (count: usize)
        requires
            self@.has_inbox(inbox),
        ensures
            count == self@.inboxes[inbox as int].pending.len(),
    {
        self.inboxes[inbox].pending.len()
    }

    /// Whether the endpoint that reads `inbox` still exists.
    pub fn is_live(&self, inbox: usize) -> (live: bool)
        requires
            self@.has_inbox(inbox),
        ensures
            live == self@.inboxes[inbox as int].live,
    {
        self.inboxes[inbox].live
    }

    /// Adds a fresh channel and returns its index.
    pub fn open_channel(&mut self) -> (id: usize)
        requires
            old(self)@.wf(),
        ensures
            id == old(self)@.channels.len(),
            final(self)@ == old(self)@.open_channel(),
            final(self)@.wf(),
    {
        let id: usize = self.channels.len();
        self.channels.push(Channel::with_capacity(self.buffer_size));
        assert(self@.channels =~= old(self)@.channels.push(
            ChannelState::fresh(self.buffer_size as nat),
        ));
        assert(self@.inboxes =~= old(self)@.inboxes);
        assert(self.channels@.len() == self.channels.len());
        id
    }

    /// Adds an empty control inbox and returns its index.
    pub fn open_inbox(&mut self) -> (id: usize)
        requires
            old(self)@.wf(),
        ensures
            id == old(self)@.inboxes.len(),
            final(self)@ == old(self)@.open_inbox(),
            final(self)@.wf(),
    {
        let id: usize = self.inboxes.len();
        self.inboxes.push(Inbox { pending: Vec::new(), live: true });
        assert(self@.inboxes =~= old(self)@.inboxes.push(
            InboxState { pending: Seq::empty(), live: true },
        ));
        assert(self@.channels =~= old(self)@.channels);
        assert(self.inboxes@.len() == self.inboxes.len());
        id
    }

    fn inbox_mut(&mut self, id: usize) -> (inbox: &mut Inbox)
        requires
            old(self)@.has_inbox(id),
        ensures
            *inbox == old(self).inboxes@[id as int],
            inbox@ == old(self)@.inboxes[id as int],
            final(self)@ == old(self)@.set_inbox(id, final(inbox)@),
    {
        proof {
            let before = self.inboxes@;
            assert forall|next: Inbox|
                #[trigger] inbox_states(before.update(id as int, next)) == inbox_states(
                    before,
                ).update(id as int, next@) by {
                assert(inbox_states(before.update(id as int, next)) =~= inbox_states(
                    before,
                ).update(id as int, next@));
            }
        }
        &mut self.inboxes[id]
    }

    /// Sends `channel` to the endpoint that reads `inbox`. If that endpoint
    /// is gone, nothing happens.
    pub fn post(&mut self, inbox: usize, channel: usize)
        requires
            old(self)@.wf(),
            old(self)@.has_inbox(inbox),
            old(self)@.has_channel(channel),
        ensures
            final(self)@ == old(self)@.post(inbox, channel),
            final(self)@.wf(),
    {
        let slot = self.inbox_mut(inbox);
        if slot.live {
            slot.pending.push(channel);
        }
        assert(self@.inboxes =~= old(self)@.post(inbox, channel).inboxes);
    }

    /// Takes everything queued in `inbox`, oldest first.
    pub fn drain(&mut self, inbox: usize) -> (taken: Vec<usize>)
        requires
            old(self)@.wf(),
            old(self)@.has_inbox(inbox),
        ensures
            taken@ == old(self)@.inboxes[inbox as int].pending,
            final(self)@ == old(self)@.drain(inbox),
            final(self)@.wf(),
    {
        let mut taken: Vec<usize> = Vec::new();
        let slot = self.inbox_mut(inbox);
        std::mem::swap(&mut slot.pending, &mut taken);
        taken
    }

    /// Marks the endpoint that reads `inbox` as gone.
    pub fn retire(&mut self, inbox: usize)
        requires
            old(self)@.wf(),
            old(self)@.has_inbox(inbox),
        ensures
            final(self)@ == old(self)@.retire(inbox),
            final(self)@.wf(),
    {
        let slot = self.inbox_mut(inbox);
        slot.live = false;
        let mut lost: Vec<usize> = Vec::new();
        std::mem::swap(&mut slot.pending, &mut lost);
    }

    /// The channel at `id`, to read.
    pub fn channel(&self, id: usize) -> (channel: &Channel)
        requires
            self@.has_channel(id),
        ensures
            channel@ == self@.channels[id as int],
    {
        &self.channels[id]
    }

    /// The channel at `id`, to change.
    pub fn channel_mut(&mut self, id: usize) -> (channel: &mut Channel)
        requires
            old(self)@.has_channel(id),
        ensures
            channel@ == old(self)@.channels[id as int],
            final(self)@ == old(self)@.set_channel(id, final(channel)@),
    {
        proof {
            let before = self.channels@;
            assert forall|next: Channel|
                #[trigger] channel_states(before.update(id as int, next)) == channel_states(
                    before,
                ).update(id as int, next@) by {
                assert(channel_states(before.update(id as int, next)) =~= channel_states(
                    before,
                ).update(id as int, next@));
            }
        }
        &mut self.channels[id]
    }
}

} // verus!
