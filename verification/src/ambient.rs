//! The scoped binding of a current network, and the entry points that
//! act on whatever network is bound.

use crate::network::{
    spawned_in, tick_next, Network, Pool, Scheduled, Spawned, TickAction, TickEvent,
};
use crate::process::Process;
use crate::task::Poll;
use std::future::Future;
use vstd::prelude::*;

verus! {

/// The failure of an entry point that found no network bound.
#[derive(Clone, Copy, Debug, PartialEq, Eq)]
pub struct NoNetwork;

impl NoNetwork {
    /// The diagnostic to show.
    pub fn message(&self) -> (text: &'static str)
        ensures
            text@ == "no network bound"@,
    {
        "no network bound"
    }
}

/// The bindings of one thread, outermost first. The innermost binding is
/// the current one and shadows the others.
pub struct Ambient<N> {
    stack: Vec<N>,
}

/// The innermost of the bindings, if there is any.
pub open spec fn innermost<N>(bindings: Seq<N>) -> Option<N> {
    if bindings.len() > 0 {
        Some(bindings.last())
    } else {
        None
    }
}

impl<N> Ambient<N> {
    /// The bound values, outermost first.
    pub closed spec fn bindings(&self) -> Seq<N> {
        self.stack@
    }

    /// No binding at all.
    pub fn new() -> (ambient: Self)
        ensures
            ambient.bindings() == Seq::<N>::empty(),
    {
        Ambient { stack: Vec::new() }
    }

    /// How many bindings are nested.
    pub fn depth(&self) -> (depth: usize)
        ensures
            depth == self.bindings().len(),
    {
        self.stack.len()
    }

    /// Binds `network` as the current one, shadowing the binding before.
    pub fn enter(&mut self, network: N)
        ensures
            final(self).bindings() == old(self).bindings().push(network),
    {
        self.stack.push(network);
    }

    /// Ends the innermost binding and hands its value back; the binding
    /// that it shadowed is current again.
    pub fn leave(&mut self) -> (left: Option<N>)
        ensures
            left == innermost(old(self).bindings()),
            final(self).bindings() == if old(self).bindings().len() > 0 {
                old(self).bindings().drop_last()
            } else {
                old(self).bindings()
            },
    {
        self.stack.pop()
    }

    /// The current binding.
    pub fn current(&self) -> (res: Result<&N, NoNetwork>)
        ensures
            match res {
                Ok(network) => innermost(self.bindings()) == Some(*network),
                Err(_) => innermost(self.bindings()) == None::<N>,
            },
    {
        let depth: usize = self.stack.len();
        if depth > 0 {
            Ok(&self.stack[depth - 1])
        } else {
            Err(NoNetwork)
        }
    }
}

/// The bindings but for the innermost are what they were.
pub open spec fn outer_kept(before: Seq<Network>, after: Seq<Network>) -> bool {
    &&& before.len() > 0
    &&& after.len() == before.len()
    &&& after.drop_last() == before.drop_last()
}

/// A process can be spawned in whatever network is bound, if one is.
pub open spec fn can_spawn(bindings: Seq<Network>) -> bool {
    bindings.len() > 0 ==> {
        &&& bindings.last()@.wf()
        &&& !bindings.last()@.shutdown
        &&& bindings.last()@.active < usize::MAX
    }
}

/// Spawns a process on the local pool of the current network.
pub fn spawn_local_process<P: Process>(ambient: &mut Ambient<Network>, process: P) -> (res: Result<
    Spawned<P>,
    NoNetwork,
>)
    requires
        can_spawn(old(ambient).bindings()),
    ensures
        match res {
            Ok(spawned) => {
                &&& outer_kept(old(ambient).bindings(), final(ambient).bindings())
                &&& spawned_in(
                    old(ambient).bindings().last()@,
                    final(ambient).bindings().last()@,
                    spawned,
                    Pool::Local,
                )
            },
            Err(_) => {
                &&& old(ambient).bindings().len() == 0
                &&& final(ambient).bindings() == old(ambient).bindings()
            },
        },
{
    match ambient.stack.pop() {
        Some(network) => {
            let mut network = network;
            let spawned = network.spawn_local_process(process);
            ambient.stack.push(network);
            assert(ambient.bindings().drop_last() =~= old(ambient).bindings().drop_last());
            Ok(spawned)
        },
        None => Err(NoNetwork),
    }
}

/// Spawns a process on the shared pool of the current network.
pub fn spawn_process<P: Process>(ambient: &mut Ambient<Network>, process: P) -> (res: Result<
    Spawned<P>,
    NoNetwork,
>)
    requires
        can_spawn(old(ambient).bindings()),
    ensures
        match res {
            Ok(spawned) => {
                &&& outer_kept(old(ambient).bindings(), final(ambient).bindings())
                &&& spawned_in(
                    old(ambient).bindings().last()@,
                    final(ambient).bindings().last()@,
                    spawned,
                    Pool::Shared,
                )
            },
            Err(_) => {
                &&& old(ambient).bindings().len() == 0
                &&& final(ambient).bindings() == old(ambient).bindings()
            },
        },
{
    match ambient.stack.pop() {
        Some(network) => {
            let mut network = network;
            let spawned = network.spawn_process(process);
            ambient.stack.push(network);
            assert(ambient.bindings().drop_last() =~= old(ambient).bindings().drop_last());
            Ok(spawned)
        },
        None => Err(NoNetwork),
    }
}

/// Places a task on the local pool of the current network.
pub fn spawn_local_task<F, T>(ambient: &Ambient<Network>, task: F) -> (res: Result<
    Scheduled<F>,
    NoNetwork,
>) where F: Future<Output = T>
    ensures
        match res {
            Ok(scheduled) => {
                &&& ambient.bindings().len() > 0
                &&& scheduled.task == task
                &&& scheduled.pool == Pool::Local
            },
            Err(_) => ambient.bindings().len() == 0,
        },
{
    match ambient.current() {
        Ok(network) => Ok(network.spawn_local_task(task)),
        Err(none) => Err(none),
    }
}

/// Places a task on the shared pool of the current network.
pub fn spawn_task<F, T>(ambient: &Ambient<Network>, task: F) -> (res: Result<
    Scheduled<F>,
    NoNetwork,
>) where F: Future<Output = T>
    ensures
        match res {
            Ok(scheduled) => {
                &&& ambient.bindings().len() > 0
                &&& scheduled.task == task
                &&& scheduled.pool == Pool::Shared
            },
            Err(_) => ambient.bindings().len() == 0,
        },
{
    match ambient.current() {
        Ok(network) => Ok(network.spawn_task(task)),
        Err(none) => Err(none),
    }
}

/// Decides the next step of a tick of the current network, whatever kind
/// of value stands for it: local pool first.
pub fn tick<N>(ambient: &Ambient<N>, event: TickEvent) -> (res: Result<TickAction, NoNetwork>)
    ensures
        res == if ambient.bindings().len() > 0 {
            Ok::<TickAction, NoNetwork>(tick_next(event))
        } else {
            Err::<TickAction, NoNetwork>(NoNetwork)
        },
{
    match ambient.current() {
        Ok(_) => Ok(Network::tick(event)),
        Err(none) => Err(none),
    }
}

/// Hands the current network, whatever kind of value stands for it, to
/// `drive`, which blocks on a future while it drives the pools, and
/// returns what `drive` made of it.
pub fn run<N, T, D: FnOnce(&N) -> T>(ambient: &Ambient<N>, drive: D) -> (res: Result<T, NoNetwork>)
    requires
        ambient.bindings().len() > 0 ==> drive.requires((&ambient.bindings().last(),)),
    ensures
        match res {
            Ok(output) => {
                &&& ambient.bindings().len() > 0
                &&& drive.ensures((&ambient.bindings().last(),), output)
            },
            Err(_) => ambient.bindings().len() == 0,
        },
{
    match ambient.current() {
        Ok(network) => Ok(drive(network)),
        Err(none) => Err(none),
    }
}

/// Whether the current network has completed.
pub fn complete(ambient: &Ambient<Network>) -> (res: Result<Poll<()>, NoNetwork>)
    ensures
        match res {
            Ok(poll) => {
                &&& ambient.bindings().len() > 0
                &&& poll == if ambient.bindings().last()@.shutdown {
                    Poll::Ready(())
                } else {
                    Poll::<()>::Pending
                }
            },
            Err(_) => ambient.bindings().len() == 0,
        },
{
    match ambient.current() {
        Ok(network) => Ok(network.complete()),
        Err(none) => Err(none),
    }
}

/// Scoped binding: without a binding there is no current network; after
/// `enter` the network entered is the current one, whatever was bound
/// before; and after the matching `leave` the bindings are what they were.
pub proof fn lemma_scoped_binding<N>(bindings: Seq<N>, network: N)
    ensures
        innermost(Seq::<N>::empty()) == None::<N>,
        innermost(bindings.push(network)) == Some(network),
        bindings.push(network).drop_last() == bindings,
{
    assert(bindings.push(network).drop_last() =~= bindings);
}

} // verus!
