//! The root of a running network: its settings, its channels, and the
//! count of processes that keeps it alive.

use crate::ambient::Ambient;
use crate::channels::channel::max_capacity;
use crate::channels::fabric::{Fabric, FabricState};
use crate::ports::Ports;
use crate::process::Process;
use crate::task::Poll;
use std::future::Future;
use std::sync::Arc;
use vstd::prelude::*;

verus! {

/// The number of messages a channel holds unless the builder says
/// otherwise.
pub const DEFAULT_BUFFER_SIZE: usize = 64;

/// Settings shared by every channel of one network.
#[derive(Clone, Copy, Debug, PartialEq, Eq)]
pub struct NetworkConfig {
    pub buffer_size: usize,
}

impl NetworkConfig {
    /// A channel of this size can be made.
    pub open spec fn valid(self) -> bool {
        0 < self.buffer_size <= max_capacity()
    }

    /// Whether a channel of this size can be made.
    pub fn is_valid(&self) -> (valid: bool)
        ensures
            valid == self.valid(),
    {
        0 < self.buffer_size && self.buffer_size <= usize::MAX / 32
    }
}

impl Default for NetworkConfig {
    fn default() -> (config: Self)
        ensures
            config.buffer_size == DEFAULT_BUFFER_SIZE,
    {
        NetworkConfig { buffer_size: DEFAULT_BUFFER_SIZE }
    }
}

/// Collects the settings of a network before it is built.
#[derive(Debug)]
pub struct NetworkBuilder {
    config: NetworkConfig,
}

impl Default for NetworkBuilder {
    fn default() -> (builder: Self)
        ensures
            builder.config().buffer_size == DEFAULT_BUFFER_SIZE,
    {
        NetworkBuilder { config: NetworkConfig { buffer_size: DEFAULT_BUFFER_SIZE } }
    }
}

impl NetworkBuilder {
    /// The settings collected so far.
    pub closed spec fn config(&self) -> NetworkConfig {
        self.config
    }

    /// Sets the number of messages that each channel holds.
    pub fn buffer_size(self, buffer_size: usize) -> (builder: Self)
        ensures
            builder.config().buffer_size == buffer_size,
    {
        let mut builder = self;
        builder.config.buffer_size = buffer_size;
        builder
    }

    /// Leaves the settings as they are. A network has no setting for its
    /// number of threads: workers are added with `add_threads`, and
    /// building a network starts none.
    pub fn num_threads(self, num_threads: usize) -> (builder: Self)
        ensures
            builder.config() == self.config(),
    {
        self
    }

    /// Makes the network: no channels, no processes, no workers, not shut
    /// down.
    pub fn build(self) -> (network: Network)
        ensures
            network@ == NetworkState::fresh(self.config()),
    {
        Network {
            config: self.config,
            fabric: Fabric::new(self.config.buffer_size),
            active: 0,
            shutdown: false,
            workers: 0,
        }
    }
}

/// The pool that drives a task.
#[derive(Clone, Copy, Debug, PartialEq, Eq)]
pub enum Pool {
    /// Driven by the owning thread alone; tasks need not be thread-safe.
    Local,
    /// Driven by the owning thread and by every worker.
    Shared,
}

/// What a tick has just learnt.
#[derive(Clone, Copy, Debug, PartialEq, Eq)]
pub enum TickEvent {
    /// The tick has started.
    Started,
    /// The local pool has answered whether one of its tasks made progress.
    Local(bool),
    /// The shared pool has answered whether one of its tasks made progress.
    Shared(bool),
}

/// What a tick does next.
#[derive(Clone, Copy, Debug, PartialEq, Eq)]
pub enum TickAction {
    /// Poll one task of the local pool.
    AskLocal,
    /// Poll one task of the shared pool.
    AskShared,
    /// End the tick with this answer.
    Answer(bool),
}

/// The rule of a tick: local pool first; the shared pool is asked only
/// when the local one made no progress; the tick answers whether any task
/// made progress.
pub open spec fn tick_next(event: TickEvent) -> TickAction {
    match event {
        TickEvent::Started => TickAction::AskLocal,
        TickEvent::Local(progress) => if progress {
            TickAction::Answer(true)
        } else {
            TickAction::AskShared
        },
        TickEvent::Shared(progress) => TickAction::Answer(progress),
    }
}

/// What a network holds, as a mathematical value.
#[verifier::ext_equal]
pub struct NetworkState {
    pub config: NetworkConfig,
    pub fabric: FabricState,
    /// How many processes have been spawned and have not finished.
    pub active: nat,
    /// Whether shutdown has been signalled.
    pub shutdown: bool,
    /// How many worker threads have been asked for.
    pub workers: nat,
}

impl NetworkState {
    pub open spec fn fresh(config: NetworkConfig) -> NetworkState {
        NetworkState {
            config,
            fabric: FabricState::fresh(config.buffer_size as nat),
            active: 0,
            shutdown: false,
            workers: 0,
        }
    }

    pub open spec fn wf(self) -> bool {
        &&& self.config.valid()
        &&& self.fabric.buffer_size == self.config.buffer_size
        &&& self.fabric.wf()
    }

    /// A process has been spawned.
    pub open spec fn process_started(self, fabric: FabricState) -> NetworkState {
        NetworkState { fabric, active: self.active + 1, ..self }
    }

    /// A process has finished: when it was the last one, shutdown is
    /// signalled.
    pub open spec fn process_finished(self) -> NetworkState {
        NetworkState {
            active: (self.active - 1) as nat,
            shutdown: self.shutdown || self.active == 1,
            ..self
        }
    }

    pub open spec fn add_threads(self, num: nat) -> NetworkState {
        NetworkState { workers: self.workers + num, ..self }
    }

    pub open spec fn close(self) -> NetworkState {
        NetworkState { shutdown: true, ..self }
    }
}

/// A spawned process: the handle to wire it with, and the task to hand to
/// the pool named.
pub struct Spawned<P: Process> {
    pub handle: Arc<<P::Ports as Ports>::Handle>,
    pub task: P::ExecFuture,
    pub pool: Pool,
}

/// A task that takes no part in the count of processes, and the pool to
/// hand it to.
pub struct Scheduled<F> {
    pub task: F,
    pub pool: Pool,
}

/// What spawning a process does to a network: the ports are built in its
/// fabric, nothing that was there changes, one more process is active, and
/// the handle is that of the ports built.
pub open spec fn spawned_in<P: Process>(
    before: NetworkState,
    after: NetworkState,
    spawned: Spawned<P>,
    pool: Pool,
) -> bool {
    &&& after == before.process_started(<P::Ports as Ports>::after_create(before.fabric))
    &&& after.fabric.extends(before.fabric)
    &&& after.wf()
    &&& spawned.pool == pool
    &&& *spawned.handle == <P::Ports as Ports>::handle_after_create(before.fabric)
}

/// The runtime root: settings, channels, and the lifecycle of processes.
pub struct Network {
    config: NetworkConfig,
    fabric: Fabric,
    active: usize,
    shutdown: bool,
    workers: usize,
}

impl View for Network {
    type V = NetworkState;

    closed spec fn view(&self) -> NetworkState {
        NetworkState {
            config: self.config,
            fabric: self.fabric@,
            active: self.active as nat,
            shutdown: self.shutdown,
            workers: self.workers as nat,
        }
    }
}

impl Default for Network {
    fn default() -> (network: Self)
        ensures
            network@ == NetworkState::fresh(NetworkConfig { buffer_size: DEFAULT_BUFFER_SIZE }),
    {
        Network::builder().build()
    }
}

impl Network {
    pub fn builder() -> (builder: NetworkBuilder)
        ensures
            builder.config().buffer_size == DEFAULT_BUFFER_SIZE,
    {
        NetworkBuilder::default()
    }

    pub fn config(&self) -> (config: &NetworkConfig)
        ensures
            *config == self@.config,
    {
        &self.config
    }

    /// The channels of the network, to read.
    pub fn fabric(&self) -> (fabric: &Fabric)
        ensures
            fabric@ == self@.fabric,
    {
        &self.fabric
    }

    /// The channels of the network, for the endpoints to work on.
    pub fn fabric_mut(&mut self) -> (fabric: &mut Fabric)
        ensures
            fabric@ == old(self)@.fabric,
            final(self)@ == (NetworkState { fabric: final(fabric)@, ..old(self)@ }),
    {
        &mut self.fabric
    }

    /// How many processes have been spawned and have not finished.
    pub fn active(&self) -> (active: usize)
        ensures
            active == self@.active,
    {
        self.active
    }

    /// How many worker threads have been asked for.
    pub fn workers(&self) -> (workers: usize)
        ensures
            workers == self@.workers,
    {
        self.workers
    }

    /// Records that `num` more worker threads drive the shared pool.
    pub fn add_threads(&mut self, num: usize)
        requires
            old(self)@.workers + num <= usize::MAX,
        ensures
            final(self)@ == old(self)@.add_threads(num as nat),
    {
        self.workers = self.workers + num;
    }

    /// Spawns a process on the local pool.
    pub fn spawn_local_process<P: Process>(&mut self, process: P) -> (spawned: Spawned<P>)
        requires
            old(self)@.wf(),
            !old(self)@.shutdown,
            old(self)@.active < usize::MAX,
        ensures
            spawned_in(old(self)@, final(self)@, spawned, Pool::Local),
    {
        let ports = <P::Ports as Ports>::create(&mut self.fabric);
        let handle = ports.handle();
        let task = process.execute(ports);
        self.active = self.active + 1;
        Spawned { handle: Arc::new(handle), task, pool: Pool::Local }
    }

    /// Spawns a process on the shared pool.
    pub fn spawn_process<P: Process>(&mut self, process: P) -> (spawned: Spawned<P>)
        requires
            old(self)@.wf(),
            !old(self)@.shutdown,
            old(self)@.active < usize::MAX,
        ensures
            spawned_in(old(self)@, final(self)@, spawned, Pool::Shared),
    {
        let ports = <P::Ports as Ports>::create(&mut self.fabric);
        let handle = ports.handle();
        let task = process.execute(ports);
        self.active = self.active + 1;
        Spawned { handle: Arc::new(handle), task, pool: Pool::Shared }
    }

    /// Records that a process has run to its end. The answer is whether
    /// this was the transition that signals shutdown.
    pub fn process_finished(&mut self) -> (signalled: bool)
        requires
            old(self)@.active > 0,
        ensures
            final(self)@ == old(self)@.process_finished(),
            signalled == (old(self)@.active == 1 && !old(self)@.shutdown),
    {
        self.active = self.active - 1;
        if self.active == 0 && !self.shutdown {
            self.shutdown = true;
            true
        } else {
            false
        }
    }

    /// Binds the network as the current one of `ambient`, for the entry
    /// points that act on the current network, until `ambient` is left.
    pub fn enter(self, ambient: &mut Ambient<Network>)
        ensures
            final(ambient).bindings() == old(ambient).bindings().push(self),
    {
        ambient.enter(self);
    }

    /// Places a task on the local pool. It is not counted as a process.
    pub fn spawn_local_task<F, T>(&self, task: F) -> (scheduled: Scheduled<F>) where
        F: Future<Output = T>,

        ensures
            scheduled.task == task,
            scheduled.pool == Pool::Local,
    {
        Scheduled { task, pool: Pool::Local }
    }

    /// Places a task on the shared pool. It is not counted as a process.
    pub fn spawn_task<F, T>(&self, task: F) -> (scheduled: Scheduled<F>) where
        F: Future<Output = T>,

        ensures
            scheduled.task == task,
            scheduled.pool == Pool::Shared,
    {
        Scheduled { task, pool: Pool::Shared }
    }

    /// Decides the next step of a tick, which polls one task: the local
    /// pool is asked first, the shared pool only if the local one had
    /// nothing to do, and the answer is whether a task made progress.
    pub fn tick(event: TickEvent) -> (action: TickAction)
        ensures
            action == tick_next(event),
    {
        match event {
            TickEvent::Started => TickAction::AskLocal,
            TickEvent::Local(true) => TickAction::Answer(true),
            TickEvent::Local(false) => TickAction::AskShared,
            TickEvent::Shared(progress) => TickAction::Answer(progress),
        }
    }

    /// Whether the network has completed: ready once shutdown has been
    /// signalled, pending until then.
    pub fn complete(&self) -> (res: Poll<()>)
        ensures
            res == if self@.shutdown {
                Poll::Ready(())
            } else {
                Poll::<()>::Pending
            },
    {
        if self.shutdown {
            Poll::Ready(())
        } else {
            Poll::Pending
        }
    }

    /// Signals shutdown whatever the count of processes is.
    pub fn close(&mut self)
        ensures
            final(self)@ == old(self)@.close(),
    {
        self.shutdown = true;
    }
}

/// What happens to the count of processes.
pub enum LifeEvent {
    /// A process is spawned.
    Spawn,
    /// A process runs to its end.
    Finish,
}

impl NetworkState {
    /// The network after `event`.
    pub open spec fn after(self, event: LifeEvent) -> NetworkState {
        match event {
            LifeEvent::Spawn => self.process_started(self.fabric),
            LifeEvent::Finish => self.process_finished(),
        }
    }

    /// The network after every one of `events`, in order.
    pub open spec fn replay(self, events: Seq<LifeEvent>) -> NetworkState
        decreases events.len(),
    {
        if events.len() == 0 {
            self
        } else {
            self.replay(events.drop_last()).after(events.last())
        }
    }

    /// `events` can happen in this order: no process is spawned after
    /// shutdown, and only a process that is active finishes.
    pub open spec fn admits(self, events: Seq<LifeEvent>) -> bool
        decreases events.len(),
    {
        if events.len() == 0 {
            true
        } else {
            let before = self.replay(events.drop_last());
            &&& self.admits(events.drop_last())
            &&& match events.last() {
                LifeEvent::Spawn => !before.shutdown,
                LifeEvent::Finish => before.active > 0,
            }
        }
    }
}

/// How many of `events` are `Spawn`.
pub open spec fn spawns(events: Seq<LifeEvent>) -> nat
    decreases events.len(),
{
    if events.len() == 0 {
        0
    } else {
        spawns(events.drop_last()) + if events.last() is Spawn {
            1nat
        } else {
            0nat
        }
    }
}

/// How many of `events` are `Finish`.
pub open spec fn finishes(events: Seq<LifeEvent>) -> nat
    decreases events.len(),
{
    if events.len() == 0 {
        0
    } else {
        finishes(events.drop_last()) + if events.last() is Finish {
            1nat
        } else {
            0nat
        }
    }
}

/// The count of active processes is the number spawned less the number
/// finished.
pub proof fn lemma_active_count(network: NetworkState, events: Seq<LifeEvent>)
    requires
        network.admits(events),
    ensures
        network.replay(events).active + finishes(events) == network.active + spawns(events),
    decreases events.len(),
{
    if events.len() > 0 {
        lemma_active_count(network, events.drop_last());
    }
}

/// Shutdown on quiescence: in a network that starts without processes,
/// once at least one process has been spawned and every process spawned
/// has finished, shutdown has been signalled, so `complete` is ready at
/// once. Shutdown, once signalled, stays.
pub proof fn lemma_shutdown_on_quiescence(network: NetworkState, events: Seq<LifeEvent>)
    requires
        network.active == 0,
        network.admits(events),
        spawns(events) > 0,
        spawns(events) == finishes(events),
    ensures
        network.replay(events).active == 0,
        network.replay(events).shutdown,
{
    lemma_active_count(network, events);
    let before = network.replay(events.drop_last());
    lemma_active_count(network, events.drop_last());
    if events.last() is Spawn {
        assert(before.active + finishes(events.drop_last()) == spawns(events.drop_last()));
    }
}

/// Shutdown, once signalled, stays signalled whatever happens next.
pub proof fn lemma_shutdown_stays(network: NetworkState, events: Seq<LifeEvent>)
    requires
        network.shutdown,
    ensures
        network.replay(events).shutdown,
    decreases events.len(),
{
    if events.len() > 0 {
        lemma_shutdown_stays(network, events.drop_last());
    }
}

} // verus!
