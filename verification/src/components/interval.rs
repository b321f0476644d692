//! A process that sends, at a fixed pace, the time that has passed since
//! it sent last.

use crate::channels::broadcaster::{Broadcaster, BroadcasterHandle};
use crate::channels::channel::SendError;
use crate::channels::fabric::{Fabric, FabricState};
use std::time::Duration;
use vstd::prelude::*;

verus! {

/// The endpoints of an [`Interval`].
pub struct Ports {
    pub output: Broadcaster,
}

/// The handles of the endpoints of an [`Interval`].
pub struct PortsHandle {
    pub output: BroadcasterHandle,
}

impl crate::ports::Ports for Ports {
    type Handle = PortsHandle;

    open spec fn wired_in(&self, fabric: FabricState) -> bool {
        self.output.wired_in(fabric)
    }

    open spec fn handle_spec(&self) -> PortsHandle {
        PortsHandle { output: self.output.handle_spec() }
    }

    open spec fn after_create(before: FabricState) -> FabricState {
        <Broadcaster as crate::ports::Ports>::after_create(before)
    }

    open spec fn handle_after_create(before: FabricState) -> PortsHandle {
        PortsHandle { output: <Broadcaster as crate::ports::Ports>::handle_after_create(before) }
    }

    fn handle(&self) -> (handle: PortsHandle) {
        PortsHandle { output: self.output.handle() }
    }

    fn create(fabric: &mut Fabric) -> (ports: Ports)
        ensures
            ports.output.inbox() == old(fabric)@.inboxes.len(),
            ports.output.targets() == Seq::<usize>::empty(),
    {
        let output = <Broadcaster as crate::ports::Ports>::create(fabric);
        Ports { output }
    }
}

/// Where an interval process is in its cycle. Times are readings of one
/// monotonic clock, in nanoseconds.
#[derive(Clone, Copy, Debug, PartialEq, Eq)]
pub enum IntervalState {
    /// Not started.
    Idle,
    /// Sleeping through the initial delay; `prev` is when it started.
    Delaying { prev: u64 },
    /// About to read the clock for the next tick; `prev` is the tick
    /// before, or the start.
    Due { prev: u64 },
    /// Sending the message of the tick taken at `tick`.
    Emitting { tick: u64 },
    /// Sleeping through the interval after the tick taken at `tick`.
    Resting { tick: u64 },
    /// Given up: the output has refused a message.
    Failed,
}

/// What an interval process has just learnt.
#[derive(Clone, Copy, Debug, PartialEq, Eq)]
pub enum IntervalEvent {
    /// The clock has been read.
    Clock(u64),
    /// The sleep that was asked for is over.
    Woke,
    /// The output has answered the message that was sent last.
    Sent(Result<(), SendError<u64>>),
}

/// What an interval process does next.
#[derive(Clone, Copy, Debug, PartialEq, Eq)]
pub enum IntervalAction {
    /// Read the clock.
    ReadClock,
    /// Sleep through the initial delay.
    SleepDelay,
    /// Sleep through the interval.
    SleepInterval,
    /// Send the nanoseconds that have passed since the tick before.
    Send(u64),
    /// Give up: the output has refused a message.
    Fail(SendError<u64>),
    /// Nothing: the event was not the one awaited.
    Ignore,
}

/// The nanoseconds from `prev` to `tick`, and none if the clock went back.
pub open spec fn elapsed(prev: u64, tick: u64) -> u64 {
    if tick >= prev {
        (tick - prev) as u64
    } else {
        0
    }
}

/// The cycle of an interval process: it notes the time of its start,
/// sleeps through the delay if it has one, and then, for ever, reads the
/// clock, sends the time passed since the reading before, and sleeps
/// through the interval. An event that is not awaited changes nothing.
pub open spec fn interval_next(delayed: bool, state: IntervalState, event: IntervalEvent) -> (
    IntervalState,
    IntervalAction,
) {
    match (state, event) {
        (IntervalState::Idle, IntervalEvent::Clock(now)) => if delayed {
            (IntervalState::Delaying { prev: now }, IntervalAction::SleepDelay)
        } else {
            (IntervalState::Due { prev: now }, IntervalAction::ReadClock)
        },
        (IntervalState::Delaying { prev }, IntervalEvent::Woke) => (
            IntervalState::Due { prev },
            IntervalAction::ReadClock,
        ),
        (IntervalState::Due { prev }, IntervalEvent::Clock(tick)) => (
            IntervalState::Emitting { tick },
            IntervalAction::Send(elapsed(prev, tick)),
        ),
        (IntervalState::Emitting { tick }, IntervalEvent::Sent(Ok(()))) => (
            IntervalState::Resting { tick },
            IntervalAction::SleepInterval,
        ),
        (IntervalState::Emitting { tick }, IntervalEvent::Sent(Err(refusal))) => (
            IntervalState::Failed,
            IntervalAction::Fail(refusal),
        ),
        (IntervalState::Resting { tick }, IntervalEvent::Woke) => (
            IntervalState::Due { prev: tick },
            IntervalAction::ReadClock,
        ),
        _ => (state, IntervalAction::Ignore),
    }
}

/// The process: its settings.
pub struct Interval {
    delay: Option<Duration>,
    interval: Duration,
}

impl Interval {
    /// The sleep before the first tick, if any.
    pub closed spec fn delay_spec(&self) -> Option<Duration> {
        self.delay
    }

    /// The sleep between two ticks.
    pub closed spec fn interval_spec(&self) -> Duration {
        self.interval
    }

    pub fn new(delay: Option<Duration>, interval: Duration) -> (process: Self)
        ensures
            process.delay_spec() == delay,
            process.interval_spec() == interval,
    {
        Interval { delay, interval }
    }

    #[verifier::when_used_as_spec(delay_spec)]
    pub fn delay(&self) -> (delay: Option<Duration>)
        ensures
            delay == self.delay_spec(),
    {
        self.delay
    }

    #[verifier::when_used_as_spec(interval_spec)]
    pub fn interval(&self) -> (interval: Duration)
        ensures
            interval == self.interval_spec(),
    {
        self.interval
    }

    /// Decides what the process does next.
    pub fn step(&self, state: IntervalState, event: IntervalEvent) -> (next: (
        IntervalState,
        IntervalAction,
    ))
        ensures
            next == interval_next(self.delay() is Some, state, event),
    {
        match (state, event) {
            (IntervalState::Idle, IntervalEvent::Clock(now)) => {
                if self.delay.is_some() {
                    (IntervalState::Delaying { prev: now }, IntervalAction::SleepDelay)
                } else {
                    (IntervalState::Due { prev: now }, IntervalAction::ReadClock)
                }
            },
            (IntervalState::Delaying { prev }, IntervalEvent::Woke) => (
                IntervalState::Due { prev },
                IntervalAction::ReadClock,
            ),
            (IntervalState::Due { prev }, IntervalEvent::Clock(tick)) => {
                let passed: u64 = if tick >= prev {
                    tick - prev
                } else {
                    0
                };
                (IntervalState::Emitting { tick }, IntervalAction::Send(passed))
            },
            (IntervalState::Emitting { tick }, IntervalEvent::Sent(Ok(()))) => (
                IntervalState::Resting { tick },
                IntervalAction::SleepInterval,
            ),
            (IntervalState::Emitting { tick }, IntervalEvent::Sent(Err(refusal))) => (
                IntervalState::Failed,
                IntervalAction::Fail(refusal),
            ),
            (IntervalState::Resting { tick }, IntervalEvent::Woke) => (
                IntervalState::Due { prev: tick },
                IntervalAction::ReadClock,
            ),
            _ => (state, IntervalAction::Ignore),
        }
    }
}

/// No wait before the first message: a process without delay that starts
/// at `start` is told to read the clock again at once, and on the reading
/// `tick` it sends the time from `start` to `tick`. With a delay it is
/// told to sleep first, and once woken it does the same.
pub proof fn lemma_first_tick(start: u64, tick: u64)
    ensures
        interval_next(false, IntervalState::Idle, IntervalEvent::Clock(start)) == (
            IntervalState::Due { prev: start },
            IntervalAction::ReadClock,
        ),
        interval_next(true, IntervalState::Idle, IntervalEvent::Clock(start)) == (
            IntervalState::Delaying { prev: start },
            IntervalAction::SleepDelay,
        ),
        forall|delayed: bool|
            #[trigger] interval_next(
                delayed,
                IntervalState::Delaying { prev: start },
                IntervalEvent::Woke,
            ) == (IntervalState::Due { prev: start }, IntervalAction::ReadClock),
        forall|delayed: bool|
            #[trigger] interval_next(
                delayed,
                IntervalState::Due { prev: start },
                IntervalEvent::Clock(tick),
            ) == (IntervalState::Emitting { tick }, IntervalAction::Send(elapsed(start, tick))),
        tick >= start ==> elapsed(start, tick) == tick - start,
{
}

/// Each later message is the time since the tick before: once the
/// message of the tick taken at `tick` is through, the process sleeps
/// through the interval, reads the clock, and on the reading `next` sends
/// the time from `tick` to `next`, which makes `next` the tick before the
/// one after.
pub proof fn lemma_next_tick(delayed: bool, tick: u64, next: u64)
    ensures
        interval_next(delayed, IntervalState::Emitting { tick }, IntervalEvent::Sent(Ok(())))
            == (IntervalState::Resting { tick }, IntervalAction::SleepInterval),
        interval_next(delayed, IntervalState::Resting { tick }, IntervalEvent::Woke) == (
            IntervalState::Due { prev: tick },
            IntervalAction::ReadClock,
        ),
        interval_next(delayed, IntervalState::Due { prev: tick }, IntervalEvent::Clock(next))
            == (IntervalState::Emitting { tick: next }, IntervalAction::Send(elapsed(tick, next))),
        next >= tick ==> elapsed(tick, next) == next - tick,
{
}

} // verus!
