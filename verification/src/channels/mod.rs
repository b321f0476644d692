//! Channels and the endpoints that processes hold on them.

pub mod broadcaster;
pub mod channel;
pub mod fabric;
pub mod receiver;
pub mod sender;

pub use channel::Channel;
pub use channel::ChannelState;
pub use channel::SendError;
pub use fabric::Fabric;
pub use fabric::FabricState;
pub use fabric::InboxState;
pub use receiver::Receiver;
pub use receiver::ReceiverHandle;
pub use sender::Sender;
pub use sender::SenderHandle;
pub use broadcaster::Broadcaster;
pub use broadcaster::BroadcasterHandle;
