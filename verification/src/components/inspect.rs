//! A process that shows every message of its input to a function and
//! passes it on.

use crate::channels::fabric::{Fabric, FabricState};
use crate::channels::receiver::{Receiver, ReceiverHandle};
use crate::channels::sender::{Sender, SenderHandle};
use crate::components::relay::{relay, relay_step, RelayAction, RelayEvent};
use vstd::prelude::*;

verus! {

/// The endpoints of an [`Inspect`].
pub struct Ports {
    pub input: Receiver,
    pub output: Sender,
}

/// The handles of the endpoints of an [`Inspect`].
pub struct PortsHandle {
    pub input: ReceiverHandle,
    pub output: SenderHandle,
}

impl crate::ports::Ports for Ports {
    type Handle = PortsHandle;

    open spec fn wired_in(&self, fabric: FabricState) -> bool {
        self.input.wired_in(fabric) && self.output.wired_in(fabric)
    }

    open spec fn handle_spec(&self) -> PortsHandle {
        PortsHandle { input: self.input.handle_spec(), output: self.output.handle_spec() }
    }

    open spec fn after_create(before: FabricState) -> FabricState {
        <Sender as crate::ports::Ports>::after_create(
            <Receiver as crate::ports::Ports>::after_create(before),
        )
    }

    open spec fn handle_after_create(before: FabricState) -> PortsHandle {
        PortsHandle {
            input: <Receiver as crate::ports::Ports>::handle_after_create(before),
            output: <Sender as crate::ports::Ports>::handle_after_create(
                <Receiver as crate::ports::Ports>::after_create(before),
            ),
        }
    }

    fn handle(&self) -> (handle: PortsHandle) {
        PortsHandle { input: self.input.handle(), output: self.output.handle() }
    }

    /// Builds the input first, then the output.
    fn create(fabric: &mut Fabric) -> (ports: Ports)
        ensures
            ports.input.channel() == old(fabric)@.channels.len(),
            ports.output.inbox() == old(fabric)@.inboxes.len(),
            ports.output.target() == None::<usize>,
    {
        let input = <Receiver as crate::ports::Ports>::create(fabric);
        let output = <Sender as crate::ports::Ports>::create(fabric);
        proof {
            old(fabric)@.lemma_extends_twice(old(fabric)@.open_channel(), fabric@);
        }
        Ports { input, output }
    }
}

/// The process: a relay from one receiver to one sender that shows each
/// message to `f` on its way.
pub struct Inspect<F> {
    f: F,
}

impl<F: Fn(&u64)> Inspect<F> {
    /// The function that is shown the messages.
    pub closed spec fn inspector(&self) -> F {
        self.f
    }

    pub fn new(f: F) -> (inspect: Self)
        ensures
            inspect.inspector() == f,
    {
        Inspect { f }
    }

    /// Decides what the process does next: it relays, and a message
    /// received is shown to the function before it is passed on.
    pub fn step(&self, event: RelayEvent) -> (action: RelayAction)
        requires
            forall|message: u64| self.inspector().requires((&message,)),
        ensures
            action == relay(event),
            event matches RelayEvent::Received(Some(message)) ==> self.inspector().ensures(
                (&message,),
                (),
            ),
    {
        match event {
            RelayEvent::Received(Some(message)) => {
                assert(self.inspector().requires((&message,)));
                (self.f)(&message);
            },
            _ => {},
        }
        relay_step(event)
    }
}

} // verus!
