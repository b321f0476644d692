//! Ready-made processes.

pub mod inspect;
pub mod interval;
pub mod rebroadcast;
pub mod relay;

pub use rebroadcast::Broadcast;
pub use inspect::Inspect;
pub use interval::Interval;
