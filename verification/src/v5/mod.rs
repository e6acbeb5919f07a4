//! Codec for MQTT 5.0.

pub mod error;
pub mod header;
pub mod laws;
pub mod properties;
pub mod publish;
pub mod connect;
pub mod subscribe;
pub mod packet;
pub mod poll;

pub use connect::{
    Auth, AuthReasonCode, Connack, Connect, ConnectReasonCode, Disconnect, DisconnectReasonCode,
    LastWill,
};
pub use error::ErrorV5;
pub use header::{Header, PacketType};
pub use packet::Packet;
pub use poll::PollPacketState;
pub use properties::{
    Properties, Property, PropertyId, PropertyKind, PropertyScope, PropertyValue, UserProperty,
};
pub use publish::{
    Puback, PubackProperties, PubackReasonCode, Pubcomp, PubcompProperties, PubcompReasonCode,
    Publish, PublishProperties, Pubrec, PubrecProperties, PubrecReasonCode, Pubrel,
    PubrelProperties, PubrelReasonCode,
};
pub use subscribe::{
    RetainHandling, Suback, Subscribe, SubscribeReasonCode, SubscriptionOptions, Unsuback,
    Unsubscribe, UnsubscribeReasonCode,
};
