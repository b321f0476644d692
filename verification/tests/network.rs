use ebb::network::DEFAULT_BUFFER_SIZE;
use ebb::{
    Ambient, Fabric, Network, NetworkConfig, NoNetwork, Poll, Pool, Ports, Process, Receiver,
    Sender, TickAction, TickEvent,
};
use std::future::{ready, Ready};
use std::task::Waker;

struct PortsOf {
    input: Receiver,
    output: Sender,
}

struct HandleOf {
    input: ebb::ReceiverHandle,
    output: ebb::SenderHandle,
}

impl Ports for PortsOf {
    type Handle = HandleOf;

    fn handle(&self) -> HandleOf {
        HandleOf { input: self.input.handle(), output: self.output.handle() }
    }

    fn create(fabric: &mut Fabric) -> PortsOf {
        let input = Receiver::create(fabric);
        let output = Sender::create(fabric);
        PortsOf { input, output }
    }
}

struct Worker;

impl Process for Worker {
    type Ports = PortsOf;
    type ExecFuture = Ready<()>;

    fn execute(self, ports: PortsOf) -> Ready<()> {
        assert_eq!(ports.output.target(), None);
        ready(())
    }
}

struct Bare;

impl Process for Bare {
    type Ports = ();
    type ExecFuture = Ready<()>;

    fn execute(self, _ports: ()) -> Ready<()> {
        ready(())
    }
}

fn idle() -> &'static Waker {
    Waker::noop()
}

#[test]
fn the_default_buffer_size_is_sixty_four() {
    assert_eq!(DEFAULT_BUFFER_SIZE, 64);
    assert_eq!(NetworkConfig::default().buffer_size, 64);
    assert_eq!(Network::default().config().buffer_size, 64);
    assert_eq!(Network::builder().build().config().buffer_size, 64);
}

#[test]
fn the_builder_sets_the_buffer_size() {
    let network = Network::builder().buffer_size(4).build();
    assert_eq!(network.config().buffer_size, 4);
    assert_eq!(network.fabric().buffer_size(), 4);
}

#[test]
fn num_threads_leaves_the_settings_alone() {
    let network = Network::builder().buffer_size(4).num_threads(8).build();
    assert_eq!(network.config().buffer_size, 4);
    assert_eq!(network.fabric().buffer_size(), 4);
    assert_eq!(network.workers(), 0);
    let plain = Network::builder().num_threads(3).build();
    assert_eq!(plain.config().buffer_size, 64);
    assert_eq!(plain.workers(), 0);
}

#[test]
fn a_buffer_size_is_valid_from_one_up_to_the_limit() {
    assert!(!NetworkConfig { buffer_size: 0 }.is_valid());
    assert!(NetworkConfig { buffer_size: 1 }.is_valid());
    assert!(NetworkConfig { buffer_size: 64 }.is_valid());
    assert!(NetworkConfig { buffer_size: usize::MAX / 32 }.is_valid());
    assert!(!NetworkConfig { buffer_size: usize::MAX / 32 + 1 }.is_valid());
    assert!(!NetworkConfig { buffer_size: usize::MAX }.is_valid());
}

#[test]
fn a_fresh_network_is_empty_and_not_complete() {
    let network = Network::builder().build();
    assert_eq!(network.active(), 0);
    assert_eq!(network.workers(), 0);
    assert_eq!(network.fabric().channel_count(), 0);
    assert_eq!(network.complete(), Poll::Pending);
}

#[test]
fn add_threads_counts_the_workers() {
    let mut network = Network::builder().build();
    network.add_threads(3);
    network.add_threads(0);
    network.add_threads(2);
    assert_eq!(network.workers(), 5);
    assert_eq!(network.active(), 0);
}

#[test]
fn spawning_builds_the_ports_and_counts_the_process() {
    let mut network = Network::builder().buffer_size(2).build();
    let spawned = network.spawn_process(Worker);
    assert_eq!(spawned.pool, Pool::Shared);
    assert_eq!(spawned.handle.input.channel(), 0);
    assert_eq!(spawned.handle.output.inbox(), 0);
    assert_eq!(network.active(), 1);
    let local = network.spawn_local_process(Worker);
    assert_eq!(local.pool, Pool::Local);
    assert_eq!(local.handle.input.channel(), 1);
    assert_eq!(local.handle.output.inbox(), 1);
    assert_eq!(network.active(), 2);
    assert_eq!(network.fabric().channel_count(), 2);
    assert_eq!(network.fabric().inbox_count(), 2);
}

#[test]
fn handles_of_spawned_processes_wire_them_together() {
    let mut network = Network::builder().buffer_size(2).build();
    let source = network.spawn_process(Worker);
    let sink = network.spawn_process(Worker);
    source.handle.output.connect(&sink.handle.input, network.fabric_mut());
    assert_eq!(network.fabric().pending_count(source.handle.output.inbox()), 1);
    assert_eq!(network.fabric_mut().drain(source.handle.output.inbox()), vec![1]);
}

#[test]
fn tasks_are_not_counted_as_processes() {
    let network = Network::builder().build();
    let shared = network.spawn_task(ready(5));
    let local = network.spawn_local_task(ready(6));
    assert_eq!(shared.pool, Pool::Shared);
    assert_eq!(local.pool, Pool::Local);
    assert_eq!(shared.task.into_inner(), 5);
    assert_eq!(local.task.into_inner(), 6);
    assert_eq!(network.active(), 0);
}

#[test]
fn shutdown_is_signalled_when_the_last_process_finishes() {
    let mut network = Network::builder().build();
    network.spawn_process(Bare);
    network.spawn_process(Bare);
    network.spawn_local_process(Bare);
    assert_eq!(network.complete(), Poll::Pending);
    assert!(!network.process_finished());
    assert!(!network.process_finished());
    assert_eq!(network.active(), 1);
    assert_eq!(network.complete(), Poll::Pending);
    assert!(network.process_finished());
    assert_eq!(network.active(), 0);
    assert_eq!(network.complete(), Poll::Ready(()));
    assert_eq!(network.complete(), Poll::Ready(()));
}

#[test]
fn a_single_process_that_finishes_completes_the_network() {
    let mut network = Network::builder().build();
    network.spawn_process(Bare);
    assert!(network.process_finished());
    assert_eq!(network.complete(), Poll::Ready(()));
}

#[test]
fn closing_a_network_signals_shutdown() {
    let mut network = Network::builder().build();
    network.spawn_process(Bare);
    network.close();
    assert_eq!(network.complete(), Poll::Ready(()));
    assert!(!network.process_finished());
    assert_eq!(network.complete(), Poll::Ready(()));
}

fn run_tick(local: bool, shared: bool) -> (bool, Vec<&'static str>) {
    let mut asked = Vec::new();
    let mut action = Network::tick(TickEvent::Started);
    loop {
        let event = match action {
            TickAction::AskLocal => {
                asked.push("local");
                TickEvent::Local(local)
            }
            TickAction::AskShared => {
                asked.push("shared");
                TickEvent::Shared(shared)
            }
            TickAction::Answer(progress) => return (progress, asked),
        };
        action = Network::tick(event);
    }
}

#[test]
fn tick_asks_the_local_pool_first() {
    assert_eq!(Network::tick(TickEvent::Started), TickAction::AskLocal);
    assert_eq!(Network::tick(TickEvent::Local(true)), TickAction::Answer(true));
    assert_eq!(run_tick(true, true), (true, vec!["local"]));
    assert_eq!(run_tick(true, false), (true, vec!["local"]));
}

#[test]
fn tick_asks_the_shared_pool_when_the_local_one_is_idle() {
    assert_eq!(Network::tick(TickEvent::Local(false)), TickAction::AskShared);
    assert_eq!(Network::tick(TickEvent::Shared(true)), TickAction::Answer(true));
    assert_eq!(Network::tick(TickEvent::Shared(false)), TickAction::Answer(false));
    assert_eq!(run_tick(false, true), (true, vec!["local", "shared"]));
    assert_eq!(run_tick(false, false), (false, vec!["local", "shared"]));
}

#[test]
fn entry_points_fail_without_a_network() {
    let mut ambient: Ambient<Network> = Ambient::new();
    assert_eq!(ambient.depth(), 0);
    assert!(ambient.current().is_err());
    assert!(matches!(ebb::spawn_process(&mut ambient, Bare), Err(NoNetwork)));
    assert!(matches!(ebb::spawn_local_process(&mut ambient, Bare), Err(NoNetwork)));
    assert!(matches!(ebb::spawn_task(&ambient, ready(1)), Err(NoNetwork)));
    assert!(matches!(ebb::spawn_local_task(&ambient, ready(1)), Err(NoNetwork)));
    assert_eq!(ebb::tick(&ambient, TickEvent::Started), Err(NoNetwork));
    assert_eq!(ebb::complete(&ambient), Err(NoNetwork));
    assert_eq!(ebb::run(&ambient, |_network: &Network| 1), Err(NoNetwork));
    assert!(ambient.leave().is_none());
    assert_eq!(ambient.depth(), 0);
}

#[test]
fn the_missing_network_has_its_diagnostic() {
    assert_eq!(NoNetwork.message(), "no network bound");
}

#[test]
fn entry_points_act_on_the_network_entered() {
    let mut ambient: Ambient<Network> = Ambient::new();
    Network::builder().buffer_size(3).build().enter(&mut ambient);
    assert_eq!(ambient.depth(), 1);
    let spawned = ebb::spawn_process(&mut ambient, Worker).ok().unwrap();
    assert_eq!(spawned.pool, Pool::Shared);
    assert_eq!(spawned.handle.input.channel(), 0);
    let local = ebb::spawn_local_process(&mut ambient, Worker).ok().unwrap();
    assert_eq!(local.pool, Pool::Local);
    assert_eq!(ebb::spawn_task(&ambient, ready(1)).ok().unwrap().pool, Pool::Shared);
    assert_eq!(ebb::spawn_local_task(&ambient, ready(1)).ok().unwrap().pool, Pool::Local);
    assert_eq!(ebb::tick(&ambient, TickEvent::Started), Ok(TickAction::AskLocal));
    assert_eq!(ebb::tick(&ambient, TickEvent::Local(false)), Ok(TickAction::AskShared));
    assert_eq!(ebb::tick(&ambient, TickEvent::Shared(true)), Ok(TickAction::Answer(true)));
    assert_eq!(ebb::complete(&ambient), Ok(Poll::Pending));
    assert_eq!(ebb::run(&ambient, |network: &Network| network.active()), Ok(2));
    let network = ambient.leave().unwrap();
    assert_eq!(network.config().buffer_size, 3);
    assert_eq!(network.active(), 2);
    assert_eq!(network.fabric().channel_count(), 2);
    assert_eq!(ambient.depth(), 0);
    assert!(matches!(ebb::spawn_process(&mut ambient, Bare), Err(NoNetwork)));
}

#[test]
fn a_nested_binding_shadows_the_outer_one_until_it_is_left() {
    let mut ambient: Ambient<Network> = Ambient::new();
    Network::builder().buffer_size(1).build().enter(&mut ambient);
    Network::builder().buffer_size(2).build().enter(&mut ambient);
    assert_eq!(ambient.depth(), 2);
    assert_eq!(ambient.current().ok().unwrap().config().buffer_size, 2);
    ebb::spawn_process(&mut ambient, Bare).ok().unwrap();
    let inner = ambient.leave().unwrap();
    assert_eq!(inner.config().buffer_size, 2);
    assert_eq!(inner.active(), 1);
    assert_eq!(ambient.current().ok().unwrap().config().buffer_size, 1);
    assert_eq!(ambient.current().ok().unwrap().active(), 0);
    let outer = ambient.leave().unwrap();
    assert_eq!(outer.active(), 0);
    assert!(ambient.current().is_err());
}

#[test]
fn bindings_hold_any_kind_of_value() {
    let mut ambient: Ambient<u32> = Ambient::new();
    assert_eq!(ebb::run(&ambient, |bound: &u32| *bound + 1), Err(NoNetwork));
    ambient.enter(1);
    ambient.enter(2);
    assert_eq!(ebb::run(&ambient, |bound: &u32| *bound + 1), Ok(3));
    assert_eq!(ebb::tick(&ambient, TickEvent::Local(true)), Ok(TickAction::Answer(true)));
    assert_eq!(ambient.current(), Ok(&2));
    assert_eq!(ambient.leave(), Some(2));
    assert_eq!(ambient.current(), Ok(&1));
    assert_eq!(ambient.leave(), Some(1));
    assert_eq!(ambient.current(), Err(NoNetwork));
    assert_eq!(ambient.leave(), None);
}

#[test]
fn a_producer_that_ends_lets_the_consumer_end() {
    let mut network = Network::builder().buffer_size(4).build();
    let producer = network.spawn_process(Worker);
    let consumer = network.spawn_process(Worker);
    let fabric = network.fabric_mut();
    let mut output = Sender::create(fabric);
    let input = Receiver::create(fabric);
    let _ = producer;
    let _ = consumer;
    output.connect(&input.handle());
    let mut seen = Vec::new();
    let mut next: u64 = 0;
    while next < 10 {
        match output.poll_ready(fabric, idle()) {
            Poll::Ready(Ok(())) => {
                assert_eq!(output.start_send(fabric, next), Ok(()));
                next += 1;
            }
            _ => {
                if let Poll::Ready(Some(item)) = input.poll_next(fabric, idle()) {
                    seen.push(item);
                }
            }
        }
    }
    assert_eq!(output.poll_close(fabric), Poll::Ready(Ok(())));
    output.close(fabric);
    assert!(!network.process_finished());
    let fabric = network.fabric_mut();
    loop {
        match input.poll_next(fabric, idle()) {
            Poll::Ready(Some(item)) => seen.push(item),
            Poll::Ready(None) => break,
            Poll::Pending => fabric.channel_mut(input.channel()).close(),
        }
    }
    let expected: Vec<u64> = (0..10).collect();
    assert_eq!(seen, expected);
    assert!(input.is_terminated(fabric));
    assert!(network.process_finished());
    assert_eq!(network.complete(), Poll::Ready(()));
}
