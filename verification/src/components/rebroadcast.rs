//! A process that passes every message of its input on to all the
//! channels wired to its output.

use crate::channels::broadcaster::{Broadcaster, BroadcasterHandle};
use crate::channels::fabric::{Fabric, FabricState};
use crate::channels::receiver::{Receiver, ReceiverHandle};
use crate::components::relay::{relay, relay_step, RelayAction, RelayEvent};
use vstd::prelude::*;

verus! {

/// The endpoints of a [`Broadcast`].
pub struct Ports {
    pub input: Receiver,
    pub output: Broadcaster,
}

/// The handles of the endpoints of a [`Broadcast`].
pub struct PortsHandle {
    pub input: ReceiverHandle,
    pub output: BroadcasterHandle,
}

impl crate::ports::Ports for Ports {
    type Handle = PortsHandle;

    open spec fn wired_in(&self, fabric: FabricState) -> bool {
        self.input.wired_in(fabric) && self.output.wired_in(fabric)
    }

    open spec fn handle_spec(&self) -> PortsHandle {
        PortsHandle { input: self.input.handle_spec(), output: self.output.handle_spec() }
    }

    open spec fn after_create(before: FabricState) -> FabricState {
        <Broadcaster as crate::ports::Ports>::after_create(
            <Receiver as crate::ports::Ports>::after_create(before),
        )
    }

    open spec fn handle_after_create(before: FabricState) -> PortsHandle {
        PortsHandle {
            input: <Receiver as crate::ports::Ports>::handle_after_create(before),
            output: <Broadcaster as crate::ports::Ports>::handle_after_create(
                <Receiver as crate::ports::Ports>::after_create(before),
            ),
        }
    }

    fn handle(&self) -> (handle: PortsHandle) {
        PortsHandle { input: self.input.handle(), output: self.output.handle() }
    }

    /// Builds the input first, then the output.
    fn create(fabric: &mut Fabric) -> (ports: Ports)
        ensures
            ports.input.channel() == old(fabric)@.channels.len(),
            ports.output.inbox() == old(fabric)@.inboxes.len(),
            ports.output.targets() == Seq::<usize>::empty(),
    {
        let input = <Receiver as crate::ports::Ports>::create(fabric);
        let output = <Broadcaster as crate::ports::Ports>::create(fabric);
        proof {
            old(fabric)@.lemma_extends_twice(old(fabric)@.open_channel(), fabric@);
        }
        Ports { input, output }
    }
}

/// The process: a relay from one receiver to one broadcaster.
pub struct Broadcast {}

impl Broadcast {
    pub fn new() -> Self {
        Broadcast {  }
    }

    /// Decides what the process does next: it relays.
    pub fn step(&self, event: RelayEvent) -> (action: RelayAction)
        ensures
            action == relay(event),
    {
        relay_step(event)
    }
}

} // verus!
