//! Codec for MQTT 3.1.1.

pub mod connect;
pub mod header;
pub mod laws;
pub mod packet;
pub mod poll;
pub mod publish;
pub mod subscribe;

pub use connect::{Connack, Connect, ConnectReturnCode, LastWill};
pub use header::{Header, PacketType};
pub use packet::Packet;
pub use poll::PollPacketState;
pub use publish::Publish;
pub use subscribe::{Suback, Subscribe, SubscribeReturnCode, Unsubscribe};
