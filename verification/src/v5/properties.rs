//! Properties: the catalog of identifiers, the places where each may stand,
//! and the codec of a block of properties.

use crate::common::error::{read_agrees, Error, ErrorView};
use crate::common::outside::{bytes_as_slice, bytes_contents, bytes_from_slice};
use crate::common::utils::{
    decode_var_int, read_bytes, read_string, read_u16, read_u32, read_u8, spec_decode_var_int,
    spec_field_bytes, spec_read_bytes, spec_read_string, spec_read_u16, spec_read_u32, spec_read_u8,
    spec_string_bytes, spec_u16_bytes, spec_u32_bytes, spec_var_int_bytes, write_bytes,
    write_string, write_u16, write_u32, write_u8, write_var_int, FIELD_MAX, VAR_INT_MAX,
};
use crate::v5::error::{lift, read_agrees5, ErrorV5, ErrorV5View};
use crate::v5::header::PacketType;
use bytes::Bytes;
use vstd::prelude::*;
use vstd::slice::slice_subrange;
use vstd::utf8::encode_utf8;

verus! {

/// The kinds of value that a property can carry.
#[derive(Debug, Clone, Copy, PartialEq, Eq, Structural, Hash)]
pub enum PropertyKind {
    Byte,
    TwoByte,
    FourByte,
    VarInt,
    Binary,
    Text,
    Pair,
}

/// The identifier of a property.
#[derive(Debug, Clone, Copy, PartialEq, Eq, Structural, Hash)]
pub enum PropertyId {
    PayloadFormatIndicator,
    MessageExpiryInterval,
    ContentType,
    ResponseTopic,
    CorrelationData,
    SubscriptionIdentifier,
    SessionExpiryInterval,
    AssignedClientIdentifier,
    ServerKeepAlive,
    AuthenticationMethod,
    AuthenticationData,
    RequestProblemInformation,
    WillDelayInterval,
    RequestResponseInformation,
    ResponseInformation,
    ServerReference,
    ReasonString,
    ReceiveMaximum,
    TopicAliasMaximum,
    TopicAlias,
    MaximumQoS,
    RetainAvailable,
    UserProperty,
    MaximumPacketSize,
    WildcardSubscriptionAvailable,
    SubscriptionIdentifierAvailable,
    SharedSubscriptionAvailable,
}

impl PropertyId {
    /// The identifier's byte on the wire.
    pub open spec fn spec_to_u8(self) -> u8 {
        match self {
            PropertyId::PayloadFormatIndicator => 1,
            PropertyId::MessageExpiryInterval => 2,
            PropertyId::ContentType => 3,
            PropertyId::ResponseTopic => 8,
            PropertyId::CorrelationData => 9,
            PropertyId::SubscriptionIdentifier => 11,
            PropertyId::SessionExpiryInterval => 17,
            PropertyId::AssignedClientIdentifier => 18,
            PropertyId::ServerKeepAlive => 19,
            PropertyId::AuthenticationMethod => 21,
            PropertyId::AuthenticationData => 22,
            PropertyId::RequestProblemInformation => 23,
            PropertyId::WillDelayInterval => 24,
            PropertyId::RequestResponseInformation => 25,
            PropertyId::ResponseInformation => 26,
            PropertyId::ServerReference => 28,
            PropertyId::ReasonString => 31,
            PropertyId::ReceiveMaximum => 33,
            PropertyId::TopicAliasMaximum => 34,
            PropertyId::TopicAlias => 35,
            PropertyId::MaximumQoS => 36,
            PropertyId::RetainAvailable => 37,
            PropertyId::UserProperty => 38,
            PropertyId::MaximumPacketSize => 39,
            PropertyId::WildcardSubscriptionAvailable => 40,
            PropertyId::SubscriptionIdentifierAvailable => 41,
            PropertyId::SharedSubscriptionAvailable => 42,
        }
    }

    /// The property with the given byte, if any.
    pub open spec fn spec_from_u8(byte: u8) -> Option<PropertyId> {
        match byte {
            1 => Some(PropertyId::PayloadFormatIndicator),
            2 => Some(PropertyId::MessageExpiryInterval),
            3 => Some(PropertyId::ContentType),
            8 => Some(PropertyId::ResponseTopic),
            9 => Some(PropertyId::CorrelationData),
            11 => Some(PropertyId::SubscriptionIdentifier),
            17 => Some(PropertyId::SessionExpiryInterval),
            18 => Some(PropertyId::AssignedClientIdentifier),
            19 => Some(PropertyId::ServerKeepAlive),
            21 => Some(PropertyId::AuthenticationMethod),
            22 => Some(PropertyId::AuthenticationData),
            23 => Some(PropertyId::RequestProblemInformation),
            24 => Some(PropertyId::WillDelayInterval),
            25 => Some(PropertyId::RequestResponseInformation),
            26 => Some(PropertyId::ResponseInformation),
            28 => Some(PropertyId::ServerReference),
            31 => Some(PropertyId::ReasonString),
            33 => Some(PropertyId::ReceiveMaximum),
            34 => Some(PropertyId::TopicAliasMaximum),
            35 => Some(PropertyId::TopicAlias),
            36 => Some(PropertyId::MaximumQoS),
            37 => Some(PropertyId::RetainAvailable),
            38 => Some(PropertyId::UserProperty),
            39 => Some(PropertyId::MaximumPacketSize),
            40 => Some(PropertyId::WildcardSubscriptionAvailable),
            41 => Some(PropertyId::SubscriptionIdentifierAvailable),
            42 => Some(PropertyId::SharedSubscriptionAvailable),
            _ => None,
        }
    }

    /// The kind of value that the property carries.
    pub open spec fn spec_kind(self) -> PropertyKind {
        match self {
            PropertyId::PayloadFormatIndicator => PropertyKind::Byte,
            PropertyId::MessageExpiryInterval => PropertyKind::FourByte,
            PropertyId::ContentType => PropertyKind::Text,
            PropertyId::ResponseTopic => PropertyKind::Text,
            PropertyId::CorrelationData => PropertyKind::Binary,
            PropertyId::SubscriptionIdentifier => PropertyKind::VarInt,
            PropertyId::SessionExpiryInterval => PropertyKind::FourByte,
            PropertyId::AssignedClientIdentifier => PropertyKind::Text,
            PropertyId::ServerKeepAlive => PropertyKind::TwoByte,
            PropertyId::AuthenticationMethod => PropertyKind::Text,
            PropertyId::AuthenticationData => PropertyKind::Binary,
            PropertyId::RequestProblemInformation => PropertyKind::Byte,
            PropertyId::WillDelayInterval => PropertyKind::FourByte,
            PropertyId::RequestResponseInformation => PropertyKind::Byte,
            PropertyId::ResponseInformation => PropertyKind::Text,
            PropertyId::ServerReference => PropertyKind::Text,
            PropertyId::ReasonString => PropertyKind::Text,
            PropertyId::ReceiveMaximum => PropertyKind::TwoByte,
            PropertyId::TopicAliasMaximum => PropertyKind::TwoByte,
            PropertyId::TopicAlias => PropertyKind::TwoByte,
            PropertyId::MaximumQoS => PropertyKind::Byte,
            PropertyId::RetainAvailable => PropertyKind::Byte,
            PropertyId::UserProperty => PropertyKind::Pair,
            PropertyId::MaximumPacketSize => PropertyKind::FourByte,
            PropertyId::WildcardSubscriptionAvailable => PropertyKind::Byte,
            PropertyId::SubscriptionIdentifierAvailable => PropertyKind::Byte,
            PropertyId::SharedSubscriptionAvailable => PropertyKind::Byte,
        }
    }

    /// Whether the property may appear more than once in a block.
    pub open spec fn spec_repeatable(self) -> bool {
        self == PropertyId::UserProperty || self == PropertyId::SubscriptionIdentifier
    }

    /// Whether the property's value is a byte that must be 0 or 1.
    pub open spec fn spec_is_flag(self) -> bool {
        match self {
            PropertyId::PayloadFormatIndicator => true,
            PropertyId::RequestProblemInformation => true,
            PropertyId::RequestResponseInformation => true,
            PropertyId::MaximumQoS => true,
            PropertyId::RetainAvailable => true,
            PropertyId::WildcardSubscriptionAvailable => true,
            PropertyId::SubscriptionIdentifierAvailable => true,
            PropertyId::SharedSubscriptionAvailable => true,
            _ => false,
        }
    }

    /// The identifier's byte on the wire.
    #[verifier::when_used_as_spec(spec_to_u8)]
    pub fn to_u8(self) -> (b: u8)
        ensures
            b == self.spec_to_u8(),
    {
        match self {
            PropertyId::PayloadFormatIndicator => 1,
            PropertyId::MessageExpiryInterval => 2,
            PropertyId::ContentType => 3,
            PropertyId::ResponseTopic => 8,
            PropertyId::CorrelationData => 9,
            PropertyId::SubscriptionIdentifier => 11,
            PropertyId::SessionExpiryInterval => 17,
            PropertyId::AssignedClientIdentifier => 18,
            PropertyId::ServerKeepAlive => 19,
            PropertyId::AuthenticationMethod => 21,
            PropertyId::AuthenticationData => 22,
            PropertyId::RequestProblemInformation => 23,
            PropertyId::WillDelayInterval => 24,
            PropertyId::RequestResponseInformation => 25,
            PropertyId::ResponseInformation => 26,
            PropertyId::ServerReference => 28,
            PropertyId::ReasonString => 31,
            PropertyId::ReceiveMaximum => 33,
            PropertyId::TopicAliasMaximum => 34,
            PropertyId::TopicAlias => 35,
            PropertyId::MaximumQoS => 36,
            PropertyId::RetainAvailable => 37,
            PropertyId::UserProperty => 38,
            PropertyId::MaximumPacketSize => 39,
            PropertyId::WildcardSubscriptionAvailable => 40,
            PropertyId::SubscriptionIdentifierAvailable => 41,
            PropertyId::SharedSubscriptionAvailable => 42,
        }
    }

    /// The property with the given byte, if any.
    pub fn from_u8(byte: u8) -> (id: Option<PropertyId>)
        ensures
            id == Self::spec_from_u8(byte),
    {
        match byte {
            1 => Some(PropertyId::PayloadFormatIndicator),
            2 => Some(PropertyId::MessageExpiryInterval),
            3 => Some(PropertyId::ContentType),
            8 => Some(PropertyId::ResponseTopic),
            9 => Some(PropertyId::CorrelationData),
            11 => Some(PropertyId::SubscriptionIdentifier),
            17 => Some(PropertyId::SessionExpiryInterval),
            18 => Some(PropertyId::AssignedClientIdentifier),
            19 => Some(PropertyId::ServerKeepAlive),
            21 => Some(PropertyId::AuthenticationMethod),
            22 => Some(PropertyId::AuthenticationData),
            23 => Some(PropertyId::RequestProblemInformation),
            24 => Some(PropertyId::WillDelayInterval),
            25 => Some(PropertyId::RequestResponseInformation),
            26 => Some(PropertyId::ResponseInformation),
            28 => Some(PropertyId::ServerReference),
            31 => Some(PropertyId::ReasonString),
            33 => Some(PropertyId::ReceiveMaximum),
            34 => Some(PropertyId::TopicAliasMaximum),
            35 => Some(PropertyId::TopicAlias),
            36 => Some(PropertyId::MaximumQoS),
            37 => Some(PropertyId::RetainAvailable),
            38 => Some(PropertyId::UserProperty),
            39 => Some(PropertyId::MaximumPacketSize),
            40 => Some(PropertyId::WildcardSubscriptionAvailable),
            41 => Some(PropertyId::SubscriptionIdentifierAvailable),
            42 => Some(PropertyId::SharedSubscriptionAvailable),
            _ => None,
        }
    }

    /// The kind of value that the property carries.
    #[verifier::when_used_as_spec(spec_kind)]
    pub fn kind(self) -> (k: PropertyKind)
        ensures
            k == self.spec_kind(),
    {
        match self {
            PropertyId::PayloadFormatIndicator => PropertyKind::Byte,
            PropertyId::MessageExpiryInterval => PropertyKind::FourByte,
            PropertyId::ContentType => PropertyKind::Text,
            PropertyId::ResponseTopic => PropertyKind::Text,
            PropertyId::CorrelationData => PropertyKind::Binary,
            PropertyId::SubscriptionIdentifier => PropertyKind::VarInt,
            PropertyId::SessionExpiryInterval => PropertyKind::FourByte,
            PropertyId::AssignedClientIdentifier => PropertyKind::Text,
            PropertyId::ServerKeepAlive => PropertyKind::TwoByte,
            PropertyId::AuthenticationMethod => PropertyKind::Text,
            PropertyId::AuthenticationData => PropertyKind::Binary,
            PropertyId::RequestProblemInformation => PropertyKind::Byte,
            PropertyId::WillDelayInterval => PropertyKind::FourByte,
            PropertyId::RequestResponseInformation => PropertyKind::Byte,
            PropertyId::ResponseInformation => PropertyKind::Text,
            PropertyId::ServerReference => PropertyKind::Text,
            PropertyId::ReasonString => PropertyKind::Text,
            PropertyId::ReceiveMaximum => PropertyKind::TwoByte,
            PropertyId::TopicAliasMaximum => PropertyKind::TwoByte,
            PropertyId::TopicAlias => PropertyKind::TwoByte,
            PropertyId::MaximumQoS => PropertyKind::Byte,
            PropertyId::RetainAvailable => PropertyKind::Byte,
            PropertyId::UserProperty => PropertyKind::Pair,
            PropertyId::MaximumPacketSize => PropertyKind::FourByte,
            PropertyId::WildcardSubscriptionAvailable => PropertyKind::Byte,
            PropertyId::SubscriptionIdentifierAvailable => PropertyKind::Byte,
            PropertyId::SharedSubscriptionAvailable => PropertyKind::Byte,
        }
    }

    /// Whether the property may appear more than once in a block.
    #[verifier::when_used_as_spec(spec_repeatable)]
    pub fn repeatable(self) -> (b: bool)
        ensures
            b == self.spec_repeatable(),
    {
        match self {
            PropertyId::UserProperty => true,
            PropertyId::SubscriptionIdentifier => true,
            _ => false,
        }
    }

    /// Whether the property's value is a byte that must be 0 or 1.
    #[verifier::when_used_as_spec(spec_is_flag)]
    pub fn is_flag(self) -> (b: bool)
        ensures
            b == self.spec_is_flag(),
    {
        match self {
            PropertyId::PayloadFormatIndicator => true,
            PropertyId::RequestProblemInformation => true,
            PropertyId::RequestResponseInformation => true,
            PropertyId::MaximumQoS => true,
            PropertyId::RetainAvailable => true,
            PropertyId::WildcardSubscriptionAvailable => true,
            PropertyId::SubscriptionIdentifierAvailable => true,
            PropertyId::SharedSubscriptionAvailable => true,
            _ => false,
        }
    }
}

/// Where a block of properties stands: in a packet of some type, or in the
/// will of a connect packet.
#[derive(Debug, Clone, Copy, PartialEq, Eq, Structural, Hash)]
pub enum PropertyScope {
    Connect,
    Will,
    Connack,
    Publish,
    Puback,
    Pubrec,
    Pubrel,
    Pubcomp,
    Subscribe,
    Suback,
    Unsubscribe,
    Unsuback,
    Disconnect,
    Auth,
}

impl PropertyScope {
    /// The packet type that an error about this block names.
    pub open spec fn spec_packet_type(self) -> PacketType {
        match self {
            PropertyScope::Connect => PacketType::Connect,
            PropertyScope::Will => PacketType::Connect,
            PropertyScope::Connack => PacketType::Connack,
            PropertyScope::Publish => PacketType::Publish,
            PropertyScope::Puback => PacketType::Puback,
            PropertyScope::Pubrec => PacketType::Pubrec,
            PropertyScope::Pubrel => PacketType::Pubrel,
            PropertyScope::Pubcomp => PacketType::Pubcomp,
            PropertyScope::Subscribe => PacketType::Subscribe,
            PropertyScope::Suback => PacketType::Suback,
            PropertyScope::Unsubscribe => PacketType::Unsubscribe,
            PropertyScope::Unsuback => PacketType::Unsuback,
            PropertyScope::Disconnect => PacketType::Disconnect,
            PropertyScope::Auth => PacketType::Auth,
        }
    }

    /// Whether a block at this place may hold the property.
    pub open spec fn spec_allows(self, id: PropertyId) -> bool {
        match id {
            PropertyId::PayloadFormatIndicator => match self {
                PropertyScope::Publish | PropertyScope::Will => true,
                _ => false,
            },
            PropertyId::MessageExpiryInterval => match self {
                PropertyScope::Publish | PropertyScope::Will => true,
                _ => false,
            },
            PropertyId::ContentType => match self {
                PropertyScope::Publish | PropertyScope::Will => true,
                _ => false,
            },
            PropertyId::ResponseTopic => match self {
                PropertyScope::Publish | PropertyScope::Will => true,
                _ => false,
            },
            PropertyId::CorrelationData => match self {
                PropertyScope::Publish | PropertyScope::Will => true,
                _ => false,
            },
            PropertyId::SubscriptionIdentifier => match self {
                PropertyScope::Publish | PropertyScope::Subscribe => true,
                _ => false,
            },
            PropertyId::SessionExpiryInterval => match self {
                PropertyScope::Connect | PropertyScope::Connack | PropertyScope::Disconnect => true,
                _ => false,
            },
            PropertyId::AssignedClientIdentifier => match self {
                PropertyScope::Connack => true,
                _ => false,
            },
            PropertyId::ServerKeepAlive => match self {
                PropertyScope::Connack => true,
                _ => false,
            },
            PropertyId::AuthenticationMethod => match self {
                PropertyScope::Connect | PropertyScope::Connack | PropertyScope::Auth => true,
                _ => false,
            },
            PropertyId::AuthenticationData => match self {
                PropertyScope::Connect | PropertyScope::Connack | PropertyScope::Auth => true,
                _ => false,
            },
            PropertyId::RequestProblemInformation => match self {
                PropertyScope::Connect => true,
                _ => false,
            },
            PropertyId::WillDelayInterval => match self {
                PropertyScope::Will => true,
                _ => false,
            },
            PropertyId::RequestResponseInformation => match self {
                PropertyScope::Connect => true,
                _ => false,
            },
            PropertyId::ResponseInformation => match self {
                PropertyScope::Connack => true,
                _ => false,
            },
            PropertyId::ServerReference => match self {
                PropertyScope::Connack | PropertyScope::Disconnect => true,
                _ => false,
            },
            PropertyId::ReasonString => match self {
                PropertyScope::Connack | PropertyScope::Puback | PropertyScope::Pubrec | PropertyScope::Pubrel | PropertyScope::Pubcomp | PropertyScope::Suback | PropertyScope::Unsuback | PropertyScope::Disconnect | PropertyScope::Auth => true,
                _ => false,
            },
            PropertyId::ReceiveMaximum => match self {
                PropertyScope::Connect | PropertyScope::Connack => true,
                _ => false,
            },
            PropertyId::TopicAliasMaximum => match self {
                PropertyScope::Connect | PropertyScope::Connack => true,
                _ => false,
            },
            PropertyId::TopicAlias => match self {
                PropertyScope::Publish => true,
                _ => false,
            },
            PropertyId::MaximumQoS => match self {
                PropertyScope::Connack => true,
                _ => false,
            },
            PropertyId::RetainAvailable => match self {
                PropertyScope::Connack => true,
                _ => false,
            },
            PropertyId::UserProperty => true,
            PropertyId::MaximumPacketSize => match self {
                PropertyScope::Connect | PropertyScope::Connack => true,
                _ => false,
            },
            PropertyId::WildcardSubscriptionAvailable => match self {
                PropertyScope::Connack => true,
                _ => false,
            },
            PropertyId::SubscriptionIdentifierAvailable => match self {
                PropertyScope::Connack => true,
                _ => false,
            },
            PropertyId::SharedSubscriptionAvailable => match self {
                PropertyScope::Connack => true,
                _ => false,
            },
        }
    }

    /// The packet type that an error about this block names.
    #[verifier::when_used_as_spec(spec_packet_type)]
    pub fn packet_type(self) -> (t: PacketType)
        ensures
            t == self.spec_packet_type(),
    {
        match self {
            PropertyScope::Connect => PacketType::Connect,
            PropertyScope::Will => PacketType::Connect,
            PropertyScope::Connack => PacketType::Connack,
            PropertyScope::Publish => PacketType::Publish,
            PropertyScope::Puback => PacketType::Puback,
            PropertyScope::Pubrec => PacketType::Pubrec,
            PropertyScope::Pubrel => PacketType::Pubrel,
            PropertyScope::Pubcomp => PacketType::Pubcomp,
            PropertyScope::Subscribe => PacketType::Subscribe,
            PropertyScope::Suback => PacketType::Suback,
            PropertyScope::Unsubscribe => PacketType::Unsubscribe,
            PropertyScope::Unsuback => PacketType::Unsuback,
            PropertyScope::Disconnect => PacketType::Disconnect,
            PropertyScope::Auth => PacketType::Auth,
        }
    }

    /// Whether a block at this place may hold the property.
    #[verifier::when_used_as_spec(spec_allows)]
    pub fn allows(self, id: PropertyId) -> (b: bool)
        ensures
            b == self.spec_allows(id),
    {
        match id {
            PropertyId::PayloadFormatIndicator => match self {
                PropertyScope::Publish | PropertyScope::Will => true,
                _ => false,
            },
            PropertyId::MessageExpiryInterval => match self {
                PropertyScope::Publish | PropertyScope::Will => true,
                _ => false,
            },
            PropertyId::ContentType => match self {
                PropertyScope::Publish | PropertyScope::Will => true,
                _ => false,
            },
            PropertyId::ResponseTopic => match self {
                PropertyScope::Publish | PropertyScope::Will => true,
                _ => false,
            },
            PropertyId::CorrelationData => match self {
                PropertyScope::Publish | PropertyScope::Will => true,
                _ => false,
            },
            PropertyId::SubscriptionIdentifier => match self {
                PropertyScope::Publish | PropertyScope::Subscribe => true,
                _ => false,
            },
            PropertyId::SessionExpiryInterval => match self {
                PropertyScope::Connect | PropertyScope::Connack | PropertyScope::Disconnect => true,
                _ => false,
            },
            PropertyId::AssignedClientIdentifier => match self {
                PropertyScope::Connack => true,
                _ => false,
            },
            PropertyId::ServerKeepAlive => match self {
                PropertyScope::Connack => true,
                _ => false,
            },
            PropertyId::AuthenticationMethod => match self {
                PropertyScope::Connect | PropertyScope::Connack | PropertyScope::Auth => true,
                _ => false,
            },
            PropertyId::AuthenticationData => match self {
                PropertyScope::Connect | PropertyScope::Connack | PropertyScope::Auth => true,
                _ => false,
            },
            PropertyId::RequestProblemInformation => match self {
                PropertyScope::Connect => true,
                _ => false,
            },
            PropertyId::WillDelayInterval => match self {
                PropertyScope::Will => true,
                _ => false,
            },
            PropertyId::RequestResponseInformation => match self {
                PropertyScope::Connect => true,
                _ => false,
            },
            PropertyId::ResponseInformation => match self {
                PropertyScope::Connack => true,
                _ => false,
            },
            PropertyId::ServerReference => match self {
                PropertyScope::Connack | PropertyScope::Disconnect => true,
                _ => false,
            },
            PropertyId::ReasonString => match self {
                PropertyScope::Connack | PropertyScope::Puback | PropertyScope::Pubrec | PropertyScope::Pubrel | PropertyScope::Pubcomp | PropertyScope::Suback | PropertyScope::Unsuback | PropertyScope::Disconnect | PropertyScope::Auth => true,
                _ => false,
            },
            PropertyId::ReceiveMaximum => match self {
                PropertyScope::Connect | PropertyScope::Connack => true,
                _ => false,
            },
            PropertyId::TopicAliasMaximum => match self {
                PropertyScope::Connect | PropertyScope::Connack => true,
                _ => false,
            },
            PropertyId::TopicAlias => match self {
                PropertyScope::Publish => true,
                _ => false,
            },
            PropertyId::MaximumQoS => match self {
                PropertyScope::Connack => true,
                _ => false,
            },
            PropertyId::RetainAvailable => match self {
                PropertyScope::Connack => true,
                _ => false,
            },
            PropertyId::UserProperty => true,
            PropertyId::MaximumPacketSize => match self {
                PropertyScope::Connect | PropertyScope::Connack => true,
                _ => false,
            },
            PropertyId::WildcardSubscriptionAvailable => match self {
                PropertyScope::Connack => true,
                _ => false,
            },
            PropertyId::SubscriptionIdentifierAvailable => match self {
                PropertyScope::Connack => true,
                _ => false,
            },
            PropertyId::SharedSubscriptionAvailable => match self {
                PropertyScope::Connack => true,
                _ => false,
            },
        }
    }
}

/// The value of a property.
#[derive(Debug, Clone, PartialEq, Eq)]
pub enum PropertyValue {
    Byte(u8),
    TwoByte(u16),
    FourByte(u32),
    VarInt(u32),
    Binary(Bytes),
    Text(String),
    Pair(String, String),
}

/// Mathematical model of [`PropertyValue`].
pub enum PropertyValueView {
    Byte(u8),
    TwoByte(u16),
    FourByte(u32),
    VarInt(u32),
    Binary(Seq<u8>),
    Text(Seq<char>),
    Pair(Seq<char>, Seq<char>),
}

impl View for PropertyValue {
    type V = PropertyValueView;

    open spec fn view(&self) -> PropertyValueView {
        match *self {
            PropertyValue::Byte(b) => PropertyValueView::Byte(b),
            PropertyValue::TwoByte(v) => PropertyValueView::TwoByte(v),
            PropertyValue::FourByte(v) => PropertyValueView::FourByte(v),
            PropertyValue::VarInt(v) => PropertyValueView::VarInt(v),
            PropertyValue::Binary(b) => PropertyValueView::Binary(bytes_contents(b)),
            PropertyValue::Text(s) => PropertyValueView::Text(s@),
            PropertyValue::Pair(k, v) => PropertyValueView::Pair(k@, v@),
        }
    }
}

impl PropertyValueView {
    /// The kind of the value.
    pub open spec fn kind(self) -> PropertyKind {
        match self {
            PropertyValueView::Byte(_) => PropertyKind::Byte,
            PropertyValueView::TwoByte(_) => PropertyKind::TwoByte,
            PropertyValueView::FourByte(_) => PropertyKind::FourByte,
            PropertyValueView::VarInt(_) => PropertyKind::VarInt,
            PropertyValueView::Binary(_) => PropertyKind::Binary,
            PropertyValueView::Text(_) => PropertyKind::Text,
            PropertyValueView::Pair(_, _) => PropertyKind::Pair,
        }
    }

    /// The value's bytes on the wire.
    pub open spec fn spec_bytes(self) -> Seq<u8> {
        match self {
            PropertyValueView::Byte(b) => seq![b],
            PropertyValueView::TwoByte(v) => spec_u16_bytes(v),
            PropertyValueView::FourByte(v) => spec_u32_bytes(v),
            PropertyValueView::VarInt(v) => spec_var_int_bytes(v),
            PropertyValueView::Binary(b) => spec_field_bytes(b),
            PropertyValueView::Text(s) => spec_string_bytes(s),
            PropertyValueView::Pair(k, v) => spec_string_bytes(k) + spec_string_bytes(v),
        }
    }

    /// The value has an encoding: a text or binary of at most 65535 bytes,
    /// a variable byte integer of at most [`VAR_INT_MAX`].
    pub open spec fn fits(self) -> bool {
        match self {
            PropertyValueView::VarInt(v) => v <= VAR_INT_MAX,
            PropertyValueView::Binary(b) => b.len() <= FIELD_MAX,
            PropertyValueView::Text(s) => encode_utf8(s).len() <= FIELD_MAX,
            PropertyValueView::Pair(k, v) => encode_utf8(k).len() <= FIELD_MAX && encode_utf8(
                v,
            ).len() <= FIELD_MAX,
            _ => true,
        }
    }
}

/// The value is in the domain of the property: 0 or 1 for a flag, not zero
/// for a subscription identifier.
pub open spec fn spec_value_ok(id: PropertyId, v: PropertyValueView) -> bool {
    &&& id.spec_is_flag() ==> (v matches PropertyValueView::Byte(b) ==> b <= 1)
    &&& id == PropertyId::SubscriptionIdentifier ==> (v matches PropertyValueView::VarInt(n) ==> n
        != 0)
}

/// A value of the given kind at `off`.
pub open spec fn spec_read_value(s: Seq<u8>, off: int, kind: PropertyKind) -> Result<
    (PropertyValueView, int),
    ErrorView,
> {
    match kind {
        PropertyKind::Byte => match spec_read_u8(s, off) {
            Err(e) => Err(e),
            Ok((v, end)) => Ok((PropertyValueView::Byte(v), end)),
        },
        PropertyKind::TwoByte => match spec_read_u16(s, off) {
            Err(e) => Err(e),
            Ok((v, end)) => Ok((PropertyValueView::TwoByte(v), end)),
        },
        PropertyKind::FourByte => match spec_read_u32(s, off) {
            Err(e) => Err(e),
            Ok((v, end)) => Ok((PropertyValueView::FourByte(v), end)),
        },
        PropertyKind::VarInt => match spec_decode_var_int(s, off) {
            Err(e) => Err(e),
            Ok((v, end)) => Ok((PropertyValueView::VarInt(v), end)),
        },
        PropertyKind::Binary => match spec_read_bytes(s, off) {
            Err(e) => Err(e),
            Ok((v, end)) => Ok((PropertyValueView::Binary(v), end)),
        },
        PropertyKind::Text => match spec_read_string(s, off) {
            Err(e) => Err(e),
            Ok((v, end)) => Ok((PropertyValueView::Text(v), end)),
        },
        PropertyKind::Pair => match spec_read_string(s, off) {
            Err(e) => Err(e),
            Ok((k, mid)) => match spec_read_string(s, mid) {
                Err(e) => Err(e),
                Ok((v, end)) => Ok((PropertyValueView::Pair(k, v), end)),
            },
        },
    }
}

/// Reads a value of the given kind at `offset`.
pub fn read_value(buf: &[u8], offset: &mut usize, kind: PropertyKind) -> (res: Result<
    PropertyValue,
    Error,
>)
    ensures
        read_agrees(res, *final(offset), spec_read_value(buf@, *old(offset) as int, kind)),
        res is Ok ==> *final(offset) > *old(offset),
{
    match kind {
        PropertyKind::Byte => Ok(PropertyValue::Byte(read_u8(buf, offset)?)),
        PropertyKind::TwoByte => Ok(PropertyValue::TwoByte(read_u16(buf, offset)?)),
        PropertyKind::FourByte => Ok(PropertyValue::FourByte(read_u32(buf, offset)?)),
        PropertyKind::VarInt => Ok(PropertyValue::VarInt(decode_var_int(buf, offset)?)),
        PropertyKind::Binary => {
            let b = read_bytes(buf, offset)?;
            Ok(PropertyValue::Binary(bytes_from_slice(b)))
        },
        PropertyKind::Text => Ok(PropertyValue::Text(read_string(buf, offset)?)),
        PropertyKind::Pair => {
            let k = read_string(buf, offset)?;
            let v = read_string(buf, offset)?;
            Ok(PropertyValue::Pair(k, v))
        },
    }
}

/// Whether the value is in the domain of the property.
pub fn value_ok(id: PropertyId, value: &PropertyValue) -> (b: bool)
    ensures
        b == spec_value_ok(id, value@),
{
    match value {
        PropertyValue::Byte(x) => !id.is_flag() || *x <= 1,
        PropertyValue::VarInt(n) => match id {
            PropertyId::SubscriptionIdentifier => *n != 0,
            _ => true,
        },
        _ => true,
    }
}

/// One property: identifier and value.
#[derive(Debug, Clone, PartialEq, Eq)]
pub struct Property {
    pub id: PropertyId,
    pub value: PropertyValue,
}

/// Mathematical model of [`Property`].
pub struct PropertyView {
    pub id: PropertyId,
    pub value: PropertyValueView,
}

impl View for Property {
    type V = PropertyView;

    open spec fn view(&self) -> PropertyView {
        PropertyView { id: self.id, value: self.value@ }
    }
}

impl PropertyView {
    /// The property's bytes: identifier, then value.
    pub open spec fn spec_bytes(self) -> Seq<u8> {
        seq![self.id.spec_to_u8()] + self.value.spec_bytes()
    }
}

/// The models of a list of properties.
pub open spec fn items_view(v: Seq<Property>) -> Seq<PropertyView> {
    v.map_values(|p: Property| p@)
}

/// Whether `items` holds a property with the given identifier.
pub open spec fn contains_id(items: Seq<PropertyView>, id: PropertyId) -> bool {
    exists|i: int| 0 <= i < items.len() && (#[trigger] items[i]).id == id
}

/// The properties of the block `s` from `off` on, behind those in `acc`. For
/// each: the identifier must be known and allowed at this place, must not
/// repeat unless it is repeatable, and the value must be in its domain.
pub open spec fn spec_read_items(
    s: Seq<u8>,
    off: int,
    scope: PropertyScope,
    acc: Seq<PropertyView>,
) -> Result<Seq<PropertyView>, ErrorV5View>
    decreases s.len() - off,
{
    if off < 0 || off >= s.len() {
        Ok(acc)
    } else {
        match PropertyId::spec_from_u8(s[off]) {
            None => Err(ErrorV5View::InvalidPropertyId(scope.spec_packet_type(), s[off])),
            Some(id) => if !scope.spec_allows(id) {
                Err(ErrorV5View::InvalidPropertyId(scope.spec_packet_type(), s[off]))
            } else if !id.spec_repeatable() && contains_id(acc, id) {
                Err(ErrorV5View::DuplicatedProperty(id))
            } else {
                match spec_read_value(s, off + 1, id.spec_kind()) {
                    Err(e) => Err(ErrorV5View::Common(e)),
                    Ok((value, end)) => if !spec_value_ok(id, value) {
                        Err(ErrorV5View::ProtocolError(id))
                    } else {
                        spec_read_items(s, end, scope, acc.push(PropertyView { id, value }))
                    },
                }
            },
        }
    }
}

/// A block of properties at `off`: its length as a variable byte integer,
/// then the properties, which fill exactly that length.
pub open spec fn spec_read_properties(s: Seq<u8>, off: int, scope: PropertyScope) -> Result<
    (Seq<PropertyView>, int),
    ErrorV5View,
> {
    match spec_decode_var_int(s, off) {
        Err(e) => Err(ErrorV5View::Common(e)),
        Ok((len, start)) => if start + len > s.len() {
            Err(ErrorV5View::Common(ErrorView::UnexpectedEof))
        } else {
            match spec_read_items(s.subrange(start, start + len), 0, scope, Seq::empty()) {
                Err(e) => Err(e),
                Ok(items) => Ok((items, start + len)),
            }
        },
    }
}

/// The bytes of a list of properties, one behind the other.
pub open spec fn spec_items_bytes(items: Seq<PropertyView>) -> Seq<u8>
    decreases items.len(),
{
    if items.len() == 0 {
        Seq::empty()
    } else {
        spec_items_bytes(items.drop_last()) + items.last().spec_bytes()
    }
}

/// Every value has an encoding, and all together have at most
/// [`VAR_INT_MAX`] bytes.
pub open spec fn spec_items_fit(items: Seq<PropertyView>) -> bool {
    &&& forall|i: int| 0 <= i < items.len() ==> (#[trigger] items[i]).value.fits()
    &&& spec_items_bytes(items).len() <= VAR_INT_MAX
}

/// The bytes of a block of properties: the length of the properties, then
/// the properties.
pub open spec fn spec_properties_bytes(items: Seq<PropertyView>) -> Seq<u8> {
    spec_var_int_bytes(spec_items_bytes(items).len() as u32) + spec_items_bytes(items)
}

/// The bytes of the first `k` properties are no more than those of all.
pub proof fn lemma_items_len_monotone(items: Seq<PropertyView>, k: int)
    requires
        0 <= k <= items.len(),
    ensures
        spec_items_bytes(items.subrange(0, k)).len() <= spec_items_bytes(items).len(),
    decreases items.len() - k,
{
    if k == items.len() {
        assert(items.subrange(0, k) =~= items);
    } else {
        assert(items.drop_last().subrange(0, k) =~= items.subrange(0, k));
        lemma_items_len_monotone(items.drop_last(), k);
    }
}

/// A block of properties, in the order of the wire.
#[derive(Debug, Clone, PartialEq, Eq)]
pub struct Properties {
    pub items: Vec<Property>,
}

impl View for Properties {
    type V = Seq<PropertyView>;

    open spec fn view(&self) -> Seq<PropertyView> {
        items_view(self.items@)
    }
}

/// Whether `items` holds a property with the given identifier.
fn has_id(items: &Vec<Property>, id: PropertyId) -> (b: bool)
    ensures
        b == contains_id(items_view(items@), id),
{
    let mut i: usize = 0;
    while i < items.len()
        invariant
            i <= items@.len(),
            forall|k: int| 0 <= k < i ==> (#[trigger] items_view(items@)[k]).id != id,
        decreases items@.len() - i,
    {
        if items[i].id == id {
            assert(items_view(items@)[i as int].id == id);
            return true;
        }
        i = i + 1;
    }
    false
}

/// Reads the properties that fill `block`.
fn decode_items(block: &[u8], scope: PropertyScope) -> (res: Result<Vec<Property>, ErrorV5>)
    ensures
        match spec_read_items(block@, 0, scope, Seq::empty()) {
            Ok(items) => res is Ok && items_view(res->Ok_0@) == items,
            Err(e) => res is Err && res->Err_0@ == e,
        },
{
    let mut items: Vec<Property> = Vec::new();
    let mut off: usize = 0;
    assert(items_view(items@) =~= Seq::empty());
    while off < block.len()
        invariant
            spec_read_items(block@, 0, scope, Seq::empty()) == spec_read_items(
                block@,
                off as int,
                scope,
                items_view(items@),
            ),
        decreases block@.len() - off,
    {
        let byte: u8 = block[off];
        let id = match PropertyId::from_u8(byte) {
            None => {
                return Err(ErrorV5::InvalidPropertyId(scope.packet_type(), byte));
            },
            Some(id) => id,
        };
        if !scope.allows(id) {
            return Err(ErrorV5::InvalidPropertyId(scope.packet_type(), byte));
        }
        if !id.repeatable() && has_id(&items, id) {
            return Err(ErrorV5::DuplicatedProperty(id));
        }
        let mut next: usize = off + 1;
        let value = lift(read_value(block, &mut next, id.kind()))?;
        if !value_ok(id, &value) {
            return Err(ErrorV5::ProtocolError(id));
        }
        let ghost before = items_view(items@);
        let property = Property { id, value };
        items.push(property);
        assert(items_view(items@) =~= before.push(property@));
        off = next;
    }
    Ok(items)
}

/// The number of bytes of the value, if it has an encoding.
fn value_len(value: &PropertyValue) -> (n: Option<usize>)
    ensures
        match n {
            Some(k) => value@.fits() && k == value@.spec_bytes().len() && k <= 131074,
            None => !value@.fits(),
        },
{
    match value {
        PropertyValue::Byte(_) => Some(1),
        PropertyValue::TwoByte(_) => Some(2),
        PropertyValue::FourByte(_) => Some(4),
        PropertyValue::VarInt(v) => {
            if *v > VAR_INT_MAX {
                None
            } else if *v < 128 {
                Some(1)
            } else if *v < 16384 {
                Some(2)
            } else if *v < 2097152 {
                Some(3)
            } else {
                Some(4)
            }
        },
        PropertyValue::Binary(b) => {
            let n = bytes_as_slice(b).len();
            if n > FIELD_MAX {
                None
            } else {
                Some(2 + n)
            }
        },
        PropertyValue::Text(s) => {
            let n = s.as_str().as_bytes().len();
            if n > FIELD_MAX {
                None
            } else {
                Some(2 + n)
            }
        },
        PropertyValue::Pair(k, v) => {
            let n = k.as_str().as_bytes().len();
            let m = v.as_str().as_bytes().len();
            if n > FIELD_MAX || m > FIELD_MAX {
                None
            } else {
                Some(4 + n + m)
            }
        },
    }
}

/// Appends the value's bytes.
fn write_value(out: &mut Vec<u8>, value: &PropertyValue)
    requires
        value@.fits(),
    ensures
        final(out)@ == old(out)@ + value@.spec_bytes(),
{
    match value {
        PropertyValue::Byte(b) => {
            write_u8(out, *b);
            assert(out@ =~= old(out)@ + value@.spec_bytes());
        },
        PropertyValue::TwoByte(v) => {
            write_u16(out, *v);
        },
        PropertyValue::FourByte(v) => {
            write_u32(out, *v);
        },
        PropertyValue::VarInt(v) => {
            let r = write_var_int(out, *v);
        },
        PropertyValue::Binary(b) => {
            let r = write_bytes(out, bytes_as_slice(b));
        },
        PropertyValue::Text(s) => {
            let r = write_string(out, s.as_str());
        },
        PropertyValue::Pair(k, v) => {
            let r1 = write_string(out, k.as_str());
            let r2 = write_string(out, v.as_str());
            assert(out@ =~= old(out)@ + value@.spec_bytes());
        },
    }
}

impl Properties {
    /// No property.
    pub fn new() -> (p: Properties)
        ensures
            p@ == Seq::<PropertyView>::empty(),
    {
        let p = Properties { items: Vec::new() };
        assert(p@ =~= Seq::<PropertyView>::empty());
        p
    }

    /// Whether the block holds no property.
    pub fn is_empty(&self) -> (b: bool)
        ensures
            b == (self@.len() == 0),
    {
        self.items.len() == 0
    }

    /// Reads a block of properties at `offset`: its length, then the
    /// properties. `InvalidPropertyId` for a property that is unknown or
    /// not allowed at this place, `DuplicatedProperty` for one that must
    /// not repeat and does, `ProtocolError` for a value outside its domain.
    pub fn decode(buf: &[u8], offset: &mut usize, scope: PropertyScope) -> (res: Result<
        Properties,
        ErrorV5,
    >)
        ensures
            read_agrees5(
                res,
                *final(offset),
                spec_read_properties(buf@, *old(offset) as int, scope),
            ),
    {
        let len: usize = lift(decode_var_int(buf, offset))? as usize;
        let start: usize = *offset;
        if buf.len() - start < len {
            return Err(ErrorV5::Common(Error::UnexpectedEof));
        }
        let items = decode_items(slice_subrange(buf, start, start + len), scope)?;
        *offset = start + len;
        Ok(Properties { items })
    }

    /// The number of bytes of the properties without the length before
    /// them, if every value has an encoding and they have at most
    /// [`VAR_INT_MAX`] bytes together.
    pub fn checked_len(&self) -> (n: Option<usize>)
        ensures
            match n {
                Some(k) => spec_items_fit(self@) && k == spec_items_bytes(self@).len(),
                None => !spec_items_fit(self@),
            },
    {
        let mut total: usize = 0;
        let mut i: usize = 0;
        assert(self@.subrange(0, 0) =~= Seq::empty());
        while i < self.items.len()
            invariant
                i <= self.items@.len(),
                total == spec_items_bytes(self@.subrange(0, i as int)).len(),
                total <= VAR_INT_MAX,
                forall|k: int| 0 <= k < i ==> (#[trigger] self@[k]).value.fits(),
            decreases self.items@.len() - i,
        {
            let item = &self.items[i];
            proof {
                assert(self@[i as int] == item@);
                let next = self@.subrange(0, i + 1);
                assert(next.drop_last() =~= self@.subrange(0, i as int));
                assert(next.last() == self@[i as int]);
                lemma_items_len_monotone(self@, i + 1);
            }
            let n = match value_len(&item.value) {
                None => {
                    return None;
                },
                Some(n) => n,
            };
            total = total + 1 + n;
            if total > 268_435_455 {
                return None;
            }
            i = i + 1;
        }
        assert(self@.subrange(0, i as int) =~= self@);
        Some(total)
    }

    /// Appends the block, or fails with `PayloadTooLong`, leaving `out` as
    /// it was, where a value has no encoding or the properties have more
    /// than [`VAR_INT_MAX`] bytes.
    pub fn encode(&self, out: &mut Vec<u8>) -> (res: Result<(), ErrorV5>)
        ensures
            match res {
                Ok(_) => spec_items_fit(self@) && final(out)@ == old(out)@ + spec_properties_bytes(
                    self@,
                ),
                Err(e) => e == ErrorV5::Common(Error::PayloadTooLong) && !spec_items_fit(self@)
                    && final(out)@ == old(out)@,
            },
    {
        let n = match self.checked_len() {
            None => {
                return Err(ErrorV5::Common(Error::PayloadTooLong));
            },
            Some(n) => n,
        };
        let r = write_var_int(out, n as u32);
        let ghost head = out@;
        let mut i: usize = 0;
        assert(self@.subrange(0, 0) =~= Seq::empty());
        assert(out@ =~= head + spec_items_bytes(self@.subrange(0, 0)));
        while i < self.items.len()
            invariant
                i <= self.items@.len(),
                spec_items_fit(self@),
                out@ == head + spec_items_bytes(self@.subrange(0, i as int)),
            decreases self.items@.len() - i,
        {
            let item = &self.items[i];
            proof {
                assert(self@[i as int] == item@);
                let next = self@.subrange(0, i + 1);
                assert(next.drop_last() =~= self@.subrange(0, i as int));
                assert(next.last() == self@[i as int]);
            }
            write_u8(out, item.id.to_u8());
            write_value(out, &item.value);
            i = i + 1;
            assert(out@ =~= head + spec_items_bytes(self@.subrange(0, i as int)));
        }
        assert(self@.subrange(0, i as int) =~= self@);
        assert(out@ =~= old(out)@ + spec_properties_bytes(self@));
        Ok(())
    }

    /// The number of bytes of the block, its length included.
    pub fn encode_len(&self) -> (n: usize)
        requires
            spec_items_fit(self@),
        ensures
            n == spec_properties_bytes(self@).len(),
    {
        let body: usize = match self.checked_len() {
            Some(k) => k,
            None => 0,
        };
        let prefix: usize = if body < 128 {
            1
        } else if body < 16384 {
            2
        } else if body < 2097152 {
            3
        } else {
            4
        };
        prefix + body
    }
}

/// A name and value pair that the application gives a packet.
#[derive(Debug, Clone, PartialEq, Eq, Hash)]
pub struct UserProperty {
    pub name: String,
    pub value: String,
}

impl View for UserProperty {
    type V = (Seq<char>, Seq<char>);

    open spec fn view(&self) -> (Seq<char>, Seq<char>) {
        (self.name@, self.value@)
    }
}

/// The models of a list of user properties.
pub open spec fn users_view(v: Seq<UserProperty>) -> Seq<(Seq<char>, Seq<char>)> {
    v.map_values(|u: UserProperty| u@)
}

/// The value of the first property with the given identifier.
pub open spec fn spec_find(items: Seq<PropertyView>, id: PropertyId) -> Option<PropertyValueView>
    decreases items.len(),
{
    if items.len() == 0 {
        None
    } else if items[0].id == id {
        Some(items[0].value)
    } else {
        spec_find(items.drop_first(), id)
    }
}

/// The first property with the given identifier, if its value is a byte.
pub open spec fn spec_find_byte(items: Seq<PropertyView>, id: PropertyId) -> Option<u8> {
    match spec_find(items, id) {
        Some(PropertyValueView::Byte(b)) => Some(b),
        _ => None,
    }
}

/// The first property with the given identifier, if its value is a 16-bit
/// integer.
pub open spec fn spec_find_u16(items: Seq<PropertyView>, id: PropertyId) -> Option<u16> {
    match spec_find(items, id) {
        Some(PropertyValueView::TwoByte(v)) => Some(v),
        _ => None,
    }
}

/// The first property with the given identifier, if its value is a 32-bit
/// integer.
pub open spec fn spec_find_u32(items: Seq<PropertyView>, id: PropertyId) -> Option<u32> {
    match spec_find(items, id) {
        Some(PropertyValueView::FourByte(v)) => Some(v),
        _ => None,
    }
}

/// The first property with the given identifier, if its value is a
/// variable byte integer.
pub open spec fn spec_find_var_int(items: Seq<PropertyView>, id: PropertyId) -> Option<u32> {
    match spec_find(items, id) {
        Some(PropertyValueView::VarInt(v)) => Some(v),
        _ => None,
    }
}

/// The first property with the given identifier, if its value is binary.
pub open spec fn spec_find_binary(items: Seq<PropertyView>, id: PropertyId) -> Option<Seq<u8>> {
    match spec_find(items, id) {
        Some(PropertyValueView::Binary(b)) => Some(b),
        _ => None,
    }
}

/// The first property with the given identifier, if its value is a text.
pub open spec fn spec_find_text(items: Seq<PropertyView>, id: PropertyId) -> Option<Seq<char>> {
    match spec_find(items, id) {
        Some(PropertyValueView::Text(s)) => Some(s),
        _ => None,
    }
}

/// The user properties among `items`, in their order.
pub open spec fn spec_user_properties(items: Seq<PropertyView>) -> Seq<(Seq<char>, Seq<char>)>
    decreases items.len(),
{
    if items.len() == 0 {
        Seq::empty()
    } else {
        match items.last().value {
            PropertyValueView::Pair(k, v) => spec_user_properties(items.drop_last()).push((k, v)),
            _ => spec_user_properties(items.drop_last()),
        }
    }
}

/// The user properties as properties.
pub open spec fn spec_user_items(users: Seq<(Seq<char>, Seq<char>)>) -> Seq<PropertyView> {
    users.map_values(
        |u: (Seq<char>, Seq<char>)|
            PropertyView { id: PropertyId::UserProperty, value: PropertyValueView::Pair(u.0, u.1) },
    )
}

/// The property with the given identifier and value, if there is a value.
pub open spec fn spec_opt_item(id: PropertyId, value: Option<PropertyValueView>) -> Seq<
    PropertyView,
> {
    match value {
        Some(v) => seq![PropertyView { id, value: v }],
        None => Seq::empty(),
    }
}

impl Properties {
    /// The value of the first property with the given identifier.
    pub fn find(&self, id: PropertyId) -> (res: Option<&PropertyValue>)
        ensures
            match spec_find(self@, id) {
                Some(v) => res is Some && res->Some_0@ == v,
                None => res is None,
            },
    {
        let mut i: usize = 0;
        assert(self@.subrange(0, self@.len() as int) =~= self@);
        while i < self.items.len()
            invariant
                i <= self.items@.len(),
                spec_find(self@, id) == spec_find(self@.subrange(i as int, self@.len() as int), id),
            decreases self.items@.len() - i,
        {
            let item = &self.items[i];
            proof {
                let rest = self@.subrange(i as int, self@.len() as int);
                assert(rest[0] == item@);
                assert(rest.drop_first() =~= self@.subrange(i + 1, self@.len() as int));
            }
            if item.id == id {
                return Some(&item.value);
            }
            i = i + 1;
        }
        None
    }

    /// The first property with the given identifier, if its value is a byte.
    pub fn find_byte(&self, id: PropertyId) -> (res: Option<u8>)
        ensures
            res == spec_find_byte(self@, id),
    {
        match self.find(id) {
            Some(PropertyValue::Byte(b)) => Some(*b),
            _ => None,
        }
    }

    /// The first property with the given identifier, if its value is a
    /// 16-bit integer.
    pub fn find_u16(&self, id: PropertyId) -> (res: Option<u16>)
        ensures
            res == spec_find_u16(self@, id),
    {
        match self.find(id) {
            Some(PropertyValue::TwoByte(v)) => Some(*v),
            _ => None,
        }
    }

    /// The first property with the given identifier, if its value is a
    /// 32-bit integer.
    pub fn find_u32(&self, id: PropertyId) -> (res: Option<u32>)
        ensures
            res == spec_find_u32(self@, id),
    {
        match self.find(id) {
            Some(PropertyValue::FourByte(v)) => Some(*v),
            _ => None,
        }
    }

    /// The first property with the given identifier, if its value is a
    /// variable byte integer.
    pub fn find_var_int(&self, id: PropertyId) -> (res: Option<u32>)
        ensures
            res == spec_find_var_int(self@, id),
    {
        match self.find(id) {
            Some(PropertyValue::VarInt(v)) => Some(*v),
            _ => None,
        }
    }

    /// The first property with the given identifier, if its value is
    /// binary.
    pub fn find_binary(&self, id: PropertyId) -> (res: Option<Bytes>)
        ensures
            match spec_find_binary(self@, id) {
                Some(b) => res is Some && bytes_contents(res->Some_0) == b,
                None => res is None,
            },
    {
        match self.find(id) {
            Some(PropertyValue::Binary(b)) => Some(b.clone()),
            _ => None,
        }
    }

    /// The first property with the given identifier, if its value is a
    /// text.
    pub fn find_text(&self, id: PropertyId) -> (res: Option<String>)
        ensures
            match spec_find_text(self@, id) {
                Some(s) => res is Some && res->Some_0@ == s,
                None => res is None,
            },
    {
        match self.find(id) {
            Some(PropertyValue::Text(s)) => Some(s.clone()),
            _ => None,
        }
    }

    /// The user properties of the block, in their order.
    pub fn user_properties(&self) -> (res: Vec<UserProperty>)
        ensures
            users_view(res@) == spec_user_properties(self@),
    {
        let mut res: Vec<UserProperty> = Vec::new();
        let mut i: usize = 0;
        assert(self@.subrange(0, 0) =~= Seq::empty());
        assert(users_view(res@) =~= Seq::empty());
        while i < self.items.len()
            invariant
                i <= self.items@.len(),
                users_view(res@) == spec_user_properties(self@.subrange(0, i as int)),
            decreases self.items@.len() - i,
        {
            let item = &self.items[i];
            proof {
                assert(self@[i as int] == item@);
                let next = self@.subrange(0, i + 1);
                assert(next.drop_last() =~= self@.subrange(0, i as int));
                assert(next.last() == self@[i as int]);
            }
            match &item.value {
                PropertyValue::Pair(k, v) => {
                    let ghost before = users_view(res@);
                    let u = UserProperty { name: k.clone(), value: v.clone() };
                    res.push(u);
                    assert(users_view(res@) =~= before.push(u@));
                },
                _ => {},
            }
            i = i + 1;
        }
        assert(self@.subrange(0, i as int) =~= self@);
        res
    }

    /// Appends a property.
    pub fn push(&mut self, id: PropertyId, value: PropertyValue)
        ensures
            final(self)@ == old(self)@.push(PropertyView { id, value: value@ }),
    {
        let property = Property { id, value };
        self.items.push(property);
        assert(self@ =~= old(self)@.push(property@));
    }

    /// Appends a property, if there is a value.
    pub fn push_opt(&mut self, id: PropertyId, value: Option<PropertyValue>)
        ensures
            final(self)@ == old(self)@ + spec_opt_item(
                id,
                match value {
                    Some(v) => Some(v@),
                    None => None,
                },
            ),
    {
        match value {
            Some(v) => {
                self.push(id, v);
                assert(self@ =~= old(self)@ + seq![PropertyView { id, value: v@ }]);
            },
            None => {
                assert(self@ =~= old(self)@ + Seq::<PropertyView>::empty());
            },
        }
    }

    /// Appends the given user properties.
    pub fn push_users(&mut self, users: &Vec<UserProperty>)
        ensures
            final(self)@ == old(self)@ + spec_user_items(users_view(users@)),
    {
        let mut i: usize = 0;
        let ghost all = spec_user_items(users_view(users@));
        assert(self@ =~= old(self)@ + all.subrange(0, 0));
        while i < users.len()
            invariant
                i <= users@.len(),
                all == spec_user_items(users_view(users@)),
                self@ == old(self)@ + all.subrange(0, i as int),
            decreases users@.len() - i,
        {
            let u = &users[i];
            self.push(PropertyId::UserProperty, PropertyValue::Pair(u.name.clone(), u.value.clone()));
            i = i + 1;
            assert(self@ =~= old(self)@ + all.subrange(0, i as int));
        }
        assert(all.subrange(0, i as int) =~= all);
    }
}

} // verus!
