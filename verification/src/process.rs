//! The contract of a process: business logic that consumes its endpoints
//! and yields the task that is its whole life.

use crate::ports::Ports;
use std::future::Future;
use vstd::prelude::*;

verus! {

/// A long-lived unit of execution that talks to others through its ports
/// alone.
pub trait Process: 'static {
    /// The bundle of endpoints that the process owns.
    type Ports: Ports;

    /// The driving task: polled to completion, it is the life of the
    /// process.
    type ExecFuture: Future<Output = ()>;

    /// Consumes the process and its freshly built ports.
    fn execute(self, ports: Self::Ports) -> Self::ExecFuture;
}

} // verus!
