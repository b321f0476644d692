//! A dataflow process network: processes talk over bounded channels that are
//! wired together through port handles.

pub mod ambient;
pub mod bundle;
pub mod channels;
pub mod components;
pub mod network;
pub mod ports;
pub mod process;
pub mod task;

pub use ambient::complete;
pub use ambient::run;
pub use ambient::spawn_local_process;
pub use ambient::spawn_local_task;
pub use ambient::spawn_process;
pub use ambient::spawn_task;
pub use ambient::tick;
pub use ambient::Ambient;
pub use ambient::NoNetwork;
pub use channels::Broadcaster;
pub use channels::BroadcasterHandle;
pub use channels::Channel;
pub use channels::ChannelState;
pub use channels::Fabric;
pub use channels::FabricState;
pub use channels::InboxState;
pub use channels::Receiver;
pub use channels::ReceiverHandle;
pub use channels::SendError;
pub use channels::Sender;
pub use channels::SenderHandle;
pub use network::Network;
pub use network::NetworkBuilder;
pub use network::NetworkConfig;
pub use network::NetworkState;
pub use network::Pool;
pub use network::Scheduled;
pub use network::Spawned;
pub use network::TickAction;
pub use network::TickEvent;
pub use ports::Ports;
pub use process::Process;
pub use task::Poll;
