//! Publish and its acknowledgements: puback, pubrec, pubrel, pubcomp.

use crate::common::error::{Error, ErrorView};
use crate::common::outside::{bytes_as_slice, bytes_contents, bytes_from_slice, str_from_utf8};
use crate::common::topic::{spec_topic_name, TopicName};
use crate::common::types::{read_qos_pid, spec_read_qos_pid, Pid, QosPid, QosPidView, VarByteInt};
use crate::common::utils::{
    read_string, read_u16, read_u8, spec_read_string, spec_read_u16, spec_read_u8,
    spec_string_bytes, spec_u16_bytes, write_raw, write_string, write_u16, write_u8, VAR_INT_MAX,
};
use crate::v5::error::{lift, read_agrees5, ErrorV5, ErrorV5View};
use crate::v5::header::{Header, PacketType};
use crate::v5::properties::{
    spec_find_binary, spec_find_byte, spec_find_text, spec_find_u16, spec_find_u32,
    spec_find_var_int, spec_items_fit, spec_opt_item, spec_properties_bytes, spec_read_properties,
    spec_user_items, spec_user_properties, users_view, Properties, PropertyId, PropertyScope,
    PropertyValue, PropertyValueView, PropertyView, UserProperty,
};
use bytes::Bytes;
use vstd::prelude::*;
use vstd::slice::slice_subrange;
use vstd::utf8::{encode_utf8, valid_utf8};

verus! {

/// Mathematical model of the properties of a publish packet.
pub struct PublishPropertiesView {
    pub payload_is_utf8: Option<bool>,
    pub message_expiry_interval: Option<u32>,
    pub topic_alias: Option<u16>,
    pub response_topic: Option<Seq<char>>,
    pub correlation_data: Option<Seq<u8>>,
    pub user_properties: Seq<(Seq<char>, Seq<char>)>,
    pub subscription_id: Option<u32>,
    pub content_type: Option<Seq<char>>,
}

/// The properties of a publish packet.
#[derive(Debug, Clone, PartialEq, Eq, Hash)]
pub struct PublishProperties {
    pub payload_is_utf8: Option<bool>,
    pub message_expiry_interval: Option<u32>,
    pub topic_alias: Option<u16>,
    pub response_topic: Option<TopicName>,
    pub correlation_data: Option<Bytes>,
    pub user_properties: Vec<UserProperty>,
    pub subscription_id: Option<VarByteInt>,
    pub content_type: Option<String>,
}

impl View for PublishProperties {
    type V = PublishPropertiesView;

    open spec fn view(&self) -> PublishPropertiesView {
        PublishPropertiesView {
            payload_is_utf8: self.payload_is_utf8,
            message_expiry_interval: self.message_expiry_interval,
            topic_alias: self.topic_alias,
            response_topic: match self.response_topic {
                Some(t) => Some(t@),
                None => None,
            },
            correlation_data: match self.correlation_data {
                Some(b) => Some(bytes_contents(b)),
                None => None,
            },
            user_properties: users_view(self.user_properties@),
            subscription_id: match self.subscription_id {
                Some(v) => Some(v@),
                None => None,
            },
            content_type: match self.content_type {
                Some(s) => Some(s@),
                None => None,
            },
        }
    }
}

/// The byte of a flag.
pub open spec fn spec_flag_byte(b: bool) -> u8 {
    if b {
        1
    } else {
        0
    }
}

impl PublishPropertiesView {
    /// No property.
    pub open spec fn empty() -> PublishPropertiesView {
        PublishPropertiesView {
            payload_is_utf8: None,
            message_expiry_interval: None,
            topic_alias: None,
            response_topic: None,
            correlation_data: None,
            user_properties: Seq::empty(),
            subscription_id: None,
            content_type: None,
        }
    }

    /// The properties of a publish packet among the properties `items` of a
    /// block: of each kind the first, and all user properties. A response
    /// topic must obey the grammar of topic names.
    pub open spec fn spec_from_items(items: Seq<PropertyView>) -> Result<
        PublishPropertiesView,
        ErrorV5View,
    > {
        let response = spec_find_text(items, PropertyId::ResponseTopic);
        let subscription = spec_find_var_int(items, PropertyId::SubscriptionIdentifier);
        if response is Some && spec_topic_name(response->Some_0) is Err {
            Err(ErrorV5View::Common(spec_topic_name(response->Some_0)->Err_0))
        } else if subscription is Some && subscription->Some_0 > VAR_INT_MAX {
            Err(ErrorV5View::Common(ErrorView::InvalidVarByteInt))
        } else {
            Ok(
                PublishPropertiesView {
                    payload_is_utf8: match spec_find_byte(
                        items,
                        PropertyId::PayloadFormatIndicator,
                    ) {
                        Some(b) => Some(b != 0),
                        None => None,
                    },
                    message_expiry_interval: spec_find_u32(
                        items,
                        PropertyId::MessageExpiryInterval,
                    ),
                    topic_alias: spec_find_u16(items, PropertyId::TopicAlias),
                    response_topic: response,
                    correlation_data: spec_find_binary(items, PropertyId::CorrelationData),
                    user_properties: spec_user_properties(items),
                    subscription_id: subscription,
                    content_type: spec_find_text(items, PropertyId::ContentType),
                },
            )
        }
    }

    /// The properties in the order in which they are written.
    pub open spec fn spec_items(self) -> Seq<PropertyView> {
        spec_opt_item(
            PropertyId::PayloadFormatIndicator,
            match self.payload_is_utf8 {
                Some(b) => Some(PropertyValueView::Byte(spec_flag_byte(b))),
                None => None,
            },
        ) + spec_opt_item(
            PropertyId::MessageExpiryInterval,
            match self.message_expiry_interval {
                Some(v) => Some(PropertyValueView::FourByte(v)),
                None => None,
            },
        ) + spec_opt_item(
            PropertyId::TopicAlias,
            match self.topic_alias {
                Some(v) => Some(PropertyValueView::TwoByte(v)),
                None => None,
            },
        ) + spec_opt_item(
            PropertyId::ResponseTopic,
            match self.response_topic {
                Some(v) => Some(PropertyValueView::Text(v)),
                None => None,
            },
        ) + spec_opt_item(
            PropertyId::CorrelationData,
            match self.correlation_data {
                Some(v) => Some(PropertyValueView::Binary(v)),
                None => None,
            },
        ) + spec_opt_item(
            PropertyId::SubscriptionIdentifier,
            match self.subscription_id {
                Some(v) => Some(PropertyValueView::VarInt(v)),
                None => None,
            },
        ) + spec_opt_item(
            PropertyId::ContentType,
            match self.content_type {
                Some(v) => Some(PropertyValueView::Text(v)),
                None => None,
            },
        ) + spec_user_items(self.user_properties)
    }

    /// The block of these properties.
    pub open spec fn spec_bytes(self) -> Seq<u8> {
        spec_properties_bytes(self.spec_items())
    }

    /// The properties have an encoding.
    pub open spec fn fits(self) -> bool {
        spec_items_fit(self.spec_items())
    }
}

impl Default for PublishProperties {
    fn default() -> (p: PublishProperties)
        ensures
            p@ == PublishPropertiesView::empty(),
    {
        let p = PublishProperties {
            payload_is_utf8: None,
            message_expiry_interval: None,
            topic_alias: None,
            response_topic: None,
            correlation_data: None,
            user_properties: Vec::new(),
            subscription_id: None,
            content_type: None,
        };
        assert(users_view(p.user_properties@) =~= Seq::empty());
        p
    }
}

impl PublishProperties {
    /// Picks the properties of a publish packet out of a block.
    pub fn from_properties(props: &Properties) -> (res: Result<PublishProperties, ErrorV5>)
        ensures
            crate::v5::error::agrees5(res, PublishPropertiesView::spec_from_items(props@)),
    {
        let response_topic = match props.find_text(PropertyId::ResponseTopic) {
            Some(text) => Some(lift(TopicName::from_string(text))?),
            None => None,
        };
        let subscription_id = match props.find_var_int(PropertyId::SubscriptionIdentifier) {
            Some(v) => Some(lift(VarByteInt::from_u32(v))?),
            None => None,
        };
        let payload_is_utf8 = match props.find_byte(PropertyId::PayloadFormatIndicator) {
            Some(b) => Some(b != 0),
            None => None,
        };
        Ok(
            PublishProperties {
                payload_is_utf8,
                message_expiry_interval: props.find_u32(PropertyId::MessageExpiryInterval),
                topic_alias: props.find_u16(PropertyId::TopicAlias),
                response_topic,
                correlation_data: props.find_binary(PropertyId::CorrelationData),
                user_properties: props.user_properties(),
                subscription_id,
                content_type: props.find_text(PropertyId::ContentType),
            },
        )
    }

    /// The properties as a block, in the order in which they are written.
    #[verifier::rlimit(50)]
    pub fn to_properties(&self) -> (props: Properties)
        ensures
            props@ == self@.spec_items(),
    {
        let mut props = Properties::new();
        let v1 = match self.payload_is_utf8 {
            Some(b) => Some(PropertyValue::Byte(if b {
                1
            } else {
                0
            })),
            None => None,
        };
        props.push_opt(PropertyId::PayloadFormatIndicator, v1);
        assert(props@ =~= spec_opt_item(
            PropertyId::PayloadFormatIndicator,
            match self@.payload_is_utf8 {
                Some(b) => Some(PropertyValueView::Byte(spec_flag_byte(b))),
                None => None,
            },
        ));
        let v2 = match self.message_expiry_interval {
            Some(v) => Some(PropertyValue::FourByte(v)),
            None => None,
        };
        props.push_opt(PropertyId::MessageExpiryInterval, v2);
        let v3 = match self.topic_alias {
            Some(v) => Some(PropertyValue::TwoByte(v)),
            None => None,
        };
        props.push_opt(PropertyId::TopicAlias, v3);
        let v4 = match &self.response_topic {
            Some(t) => Some(PropertyValue::Text(t.as_str().to_owned())),
            None => None,
        };
        props.push_opt(PropertyId::ResponseTopic, v4);
        let v5 = match &self.correlation_data {
            Some(b) => Some(PropertyValue::Binary(b.clone())),
            None => None,
        };
        props.push_opt(PropertyId::CorrelationData, v5);
        let v6 = match &self.subscription_id {
            Some(v) => Some(PropertyValue::VarInt(v.value())),
            None => None,
        };
        props.push_opt(PropertyId::SubscriptionIdentifier, v6);
        let v7 = match &self.content_type {
            Some(s) => Some(PropertyValue::Text(s.clone())),
            None => None,
        };
        props.push_opt(PropertyId::ContentType, v7);
        props.push_users(&self.user_properties);
        props
    }

    /// Reads the block of properties of a publish packet at `offset`.
    pub fn decode(buf: &[u8], offset: &mut usize) -> (res: Result<PublishProperties, ErrorV5>)
        ensures
            read_agrees5(
                res,
                *final(offset),
                spec_read_publish_properties(buf@, *old(offset) as int),
            ),
    {
        let props = Properties::decode(buf, offset, PropertyScope::Publish)?;
        PublishProperties::from_properties(&props)
    }

    /// Appends the block of properties, or fails with `PayloadTooLong`,
    /// leaving `out` as it was, where they have no encoding.
    pub fn encode(&self, out: &mut Vec<u8>) -> (res: Result<(), ErrorV5>)
        ensures
            match res {
                Ok(_) => self@.fits() && final(out)@ == old(out)@ + self@.spec_bytes(),
                Err(e) => e == ErrorV5::Common(Error::PayloadTooLong) && !self@.fits() && final(out)@ == old(out)@,
            },
    {
        self.to_properties().encode(out)
    }

    /// The number of bytes of the block of properties.
    pub fn encode_len(&self) -> (n: usize)
        requires
            self@.fits(),
        ensures
            n == self@.spec_bytes().len(),
    {
        self.to_properties().encode_len()
    }
}

/// The block of properties of a publish packet at `off`.
pub open spec fn spec_read_publish_properties(s: Seq<u8>, off: int) -> Result<
    (PublishPropertiesView, int),
    ErrorV5View,
> {
    match spec_read_properties(s, off, PropertyScope::Publish) {
        Err(e) => Err(e),
        Ok((items, end)) => match PublishPropertiesView::spec_from_items(items) {
            Err(e) => Err(e),
            Ok(p) => Ok((p, end)),
        },
    }
}

/// Body of a publish packet, with the flags of its fixed header.
#[derive(Debug, Clone, PartialEq, Eq, Hash)]
pub struct Publish {
    pub dup: bool,
    pub retain: bool,
    pub qos_pid: QosPid,
    pub topic_name: TopicName,
    pub payload: Bytes,
    pub properties: PublishProperties,
}

/// Mathematical model of [`Publish`].
pub struct PublishView {
    pub dup: bool,
    pub retain: bool,
    pub qos_pid: QosPidView,
    pub topic_name: Seq<char>,
    pub payload: Seq<u8>,
    pub properties: PublishPropertiesView,
}

impl View for Publish {
    type V = PublishView;

    open spec fn view(&self) -> PublishView {
        PublishView {
            dup: self.dup,
            retain: self.retain,
            qos_pid: self.qos_pid@,
            topic_name: self.topic_name@,
            payload: bytes_contents(self.payload),
            properties: self.properties@,
        }
    }
}

/// The topic name of a publish packet with text `text`: it may be empty
/// where the packet names its topic by an alias, and must obey the grammar
/// otherwise.
pub open spec fn spec_publish_topic(text: Seq<char>, has_alias: bool) -> Result<
    Seq<char>,
    ErrorView,
> {
    if encode_utf8(text).len() == 0 && has_alias {
        Ok(text)
    } else {
        spec_topic_name(text)
    }
}

impl PublishView {
    /// The body: topic name, packet identifier above quality of service 0,
    /// properties, then the payload as it is.
    pub open spec fn spec_bytes(self) -> Seq<u8> {
        spec_string_bytes(self.topic_name) + self.qos_pid.pid_bytes() + self.properties.spec_bytes()
            + self.payload
    }

    /// A publish packet that can be carried: a topic name that obeys the
    /// grammar, or none beside an alias; a nonzero packet identifier; a
    /// payload that is UTF-8 where it is announced as such; properties that
    /// have an encoding.
    pub open spec fn wf(self) -> bool {
        &&& spec_publish_topic(self.topic_name, self.properties.topic_alias is Some) is Ok
        &&& self.qos_pid.wf()
        &&& self.properties.payload_is_utf8 == Some(true) ==> valid_utf8(self.payload)
        &&& self.properties.fits()
    }

    /// The parser behind [`Publish::decode`]: the whole of `s` from `off` on
    /// is the body.
    pub open spec fn spec_decode(s: Seq<u8>, off: int, header: Header) -> Result<
        (PublishView, int),
        ErrorV5View,
    > {
        match spec_read_string(s, off) {
            Err(e) => Err(ErrorV5View::Common(e)),
            Ok((text, off1)) => match spec_read_qos_pid(s, off1, header.qos) {
                Err(e) => Err(ErrorV5View::Common(e)),
                Ok((qos_pid, off2)) => match spec_read_publish_properties(s, off2) {
                    Err(e) => Err(e),
                    Ok((properties, off3)) => {
                        let payload = s.subrange(off3, s.len() as int);
                        if properties.payload_is_utf8 == Some(true) && !valid_utf8(payload) {
                            Err(ErrorV5View::InvalidPayloadFormat)
                        } else {
                            match spec_publish_topic(text, properties.topic_alias is Some) {
                                Err(e) => Err(ErrorV5View::Common(e)),
                                Ok(topic_name) => Ok(
                                    (
                                        PublishView {
                                            dup: header.dup,
                                            retain: header.retain,
                                            qos_pid,
                                            topic_name,
                                            payload,
                                            properties,
                                        },
                                        s.len() as int,
                                    ),
                                ),
                            }
                        }
                    },
                },
            },
        }
    }
}

impl Publish {
    /// A publish packet with neither dup nor retain nor properties.
    pub fn new(qos_pid: QosPid, topic_name: TopicName, payload: Bytes) -> (p: Publish)
        ensures
            p@ == (PublishView {
                dup: false,
                retain: false,
                qos_pid: qos_pid@,
                topic_name: topic_name@,
                payload: bytes_contents(payload),
                properties: PublishPropertiesView::empty(),
            }),
    {
        Publish {
            dup: false,
            retain: false,
            qos_pid,
            topic_name,
            payload,
            properties: PublishProperties::default(),
        }
    }

    /// Reads the body of a publish packet: everything from `offset` to the
    /// end of `buf`. Dup, quality of service and retain come from `header`.
    /// `InvalidPayloadFormat` where the payload is announced as UTF-8 and is
    /// not; `EmptyTopic` for an empty topic name without a topic alias.
    #[verifier::rlimit(50)]
    pub fn decode(buf: &[u8], offset: &mut usize, header: Header) -> (res: Result<Publish, ErrorV5>)
        ensures
            read_agrees5(
                res,
                *final(offset),
                PublishView::spec_decode(buf@, *old(offset) as int, header),
            ),
    {
        let text = lift(read_string(buf, offset))?;
        let qos_pid = lift(read_qos_pid(buf, offset, header.qos))?;
        let properties = PublishProperties::decode(buf, offset)?;
        let start: usize = *offset;
        let payload = slice_subrange(buf, start, buf.len());
        let announced = match properties.payload_is_utf8 {
            Some(b) => b,
            None => false,
        };
        if announced && str_from_utf8(payload).is_none() {
            return Err(ErrorV5::InvalidPayloadFormat);
        }
        let topic_name = if text.as_str().as_bytes().len() == 0 && properties.topic_alias.is_some() {
            assert(text@ =~= Seq::<char>::empty()) by {
                vstd::utf8::encode_utf8_decode_utf8(text@);
                assert(encode_utf8(text@) =~= Seq::<u8>::empty());
                reveal_with_fuel(vstd::utf8::decode_utf8, 1);
                reveal_with_fuel(vstd::utf8::valid_utf8, 1);
            }
            TopicName::empty()
        } else {
            lift(TopicName::from_string(text))?
        };
        *offset = buf.len();
        Ok(
            Publish {
                dup: header.dup,
                retain: header.retain,
                qos_pid,
                topic_name,
                payload: bytes_from_slice(payload),
                properties,
            },
        )
    }

    /// Appends the body of the packet, or fails with `PayloadTooLong`,
    /// leaving `out` as it was, where the properties have no encoding.
    pub fn encode(&self, out: &mut Vec<u8>) -> (res: Result<(), ErrorV5>)
        ensures
            match res {
                Ok(_) => self@.properties.fits() && final(out)@ == old(out)@ + self@.spec_bytes(),
                Err(e) => e == ErrorV5::Common(Error::PayloadTooLong) && !self@.properties.fits()
                    && final(out)@ == old(out)@,
            },
    {
        let props = self.properties.to_properties();
        if props.checked_len().is_none() {
            return Err(ErrorV5::Common(Error::PayloadTooLong));
        }
        let r = write_string(out, self.topic_name.as_str());
        match self.qos_pid {
            QosPid::Level0 => {},
            QosPid::Level1(pid) => {
                write_u16(out, pid.value());
            },
            QosPid::Level2(pid) => {
                write_u16(out, pid.value());
            },
        }
        let ghost head = out@;
        assert(head =~= old(out)@ + spec_string_bytes(self@.topic_name) + self@.qos_pid.pid_bytes());
        let r2 = props.encode(out);
        write_raw(out, bytes_as_slice(&self.payload));
        assert(out@ =~= old(out)@ + self@.spec_bytes());
        Ok(())
    }

    /// The number of bytes of the packet's body.
    pub fn encode_len(&self) -> (n: usize)
        requires
            self@.properties.fits(),
            self@.spec_bytes().len() <= usize::MAX,
        ensures
            n == self@.spec_bytes().len(),
    {
        let mut len: usize = 2 + self.topic_name.len();
        match self.qos_pid {
            QosPid::Level0 => {},
            QosPid::Level1(_) => {
                len = len + 2;
            },
            QosPid::Level2(_) => {
                len = len + 2;
            },
        }
        len = len + self.properties.encode_len();
        len = len + bytes_as_slice(&self.payload).len();
        len
    }
}

/// Mathematical model of the properties of an acknowledgement.
pub struct AckPropertiesView {
    pub reason_string: Option<Seq<char>>,
    pub user_properties: Seq<(Seq<char>, Seq<char>)>,
}

impl AckPropertiesView {
    /// No property.
    pub open spec fn empty() -> AckPropertiesView {
        AckPropertiesView { reason_string: None, user_properties: Seq::empty() }
    }

    /// The properties of an acknowledgement among the properties `items` of
    /// a block: the first reason string, and all user properties.
    pub open spec fn spec_from_items(items: Seq<PropertyView>) -> AckPropertiesView {
        AckPropertiesView {
            reason_string: spec_find_text(items, PropertyId::ReasonString),
            user_properties: spec_user_properties(items),
        }
    }

    /// The properties in the order in which they are written.
    pub open spec fn spec_items(self) -> Seq<PropertyView> {
        spec_opt_item(
            PropertyId::ReasonString,
            match self.reason_string {
                Some(v) => Some(PropertyValueView::Text(v)),
                None => None,
            },
        ) + spec_user_items(self.user_properties)
    }

    /// The properties have an encoding.
    pub open spec fn fits(self) -> bool {
        spec_items_fit(self.spec_items())
    }
}

/// Mathematical model of an acknowledgement: puback, pubrec, pubrel or
/// pubcomp. The reason code stands as its byte.
pub struct AckView {
    pub pid: u16,
    pub reason_code: u8,
    pub properties: AckPropertiesView,
}

/// Whether `byte` is a reason code of the given type of acknowledgement.
pub open spec fn spec_ack_code_ok(typ: PacketType, byte: u8) -> bool {
    match typ {
        PacketType::Puback => PubackReasonCode::spec_from_u8(byte) is Some,
        PacketType::Pubrec => PubrecReasonCode::spec_from_u8(byte) is Some,
        PacketType::Pubrel => PubrelReasonCode::spec_from_u8(byte) is Some,
        PacketType::Pubcomp => PubcompReasonCode::spec_from_u8(byte) is Some,
        _ => false,
    }
}

/// The place of the properties of the given type of acknowledgement.
pub open spec fn spec_ack_scope(typ: PacketType) -> PropertyScope {
    match typ {
        PacketType::Puback => PropertyScope::Puback,
        PacketType::Pubrec => PropertyScope::Pubrec,
        PacketType::Pubrel => PropertyScope::Pubrel,
        _ => PropertyScope::Pubcomp,
    }
}

impl AckView {
    /// The body: the packet identifier; then the reason code, left out where
    /// it is success and there are no properties; then the properties, left
    /// out where there are none.
    pub open spec fn spec_bytes(self) -> Seq<u8> {
        spec_u16_bytes(self.pid) + (if self.properties == AckPropertiesView::empty() {
            if self.reason_code == 0 {
                Seq::empty()
            } else {
                seq![self.reason_code]
            }
        } else {
            seq![self.reason_code] + spec_properties_bytes(self.properties.spec_items())
        })
    }

    /// The properties have an encoding.
    pub open spec fn fits(self) -> bool {
        self.properties == AckPropertiesView::empty() || self.properties.fits()
    }

    /// The parser of acknowledgements. With a remaining length of 2 the
    /// reason code is success and there are no properties; with 3 there is
    /// a reason code and no properties; above, both.
    pub open spec fn spec_decode(s: Seq<u8>, off: int, remaining_len: int, typ: PacketType) -> Result<
        (AckView, int),
        ErrorV5View,
    > {
        match spec_read_u16(s, off) {
            Err(e) => Err(ErrorV5View::Common(e)),
            Ok((raw, off1)) => match Pid::spec_from_u16(raw) {
                Err(e) => Err(ErrorV5View::Common(e)),
                Ok(pid) => if remaining_len == 2 {
                    Ok((AckView { pid, reason_code: 0, properties: AckPropertiesView::empty() }, off1))
                } else {
                    match spec_read_u8(s, off1) {
                        Err(e) => Err(ErrorV5View::Common(e)),
                        Ok((byte, off2)) => if !spec_ack_code_ok(typ, byte) {
                            Err(ErrorV5View::InvalidReasonCode(typ, byte))
                        } else if remaining_len == 3 {
                            Ok(
                                (
                                    AckView {
                                        pid,
                                        reason_code: byte,
                                        properties: AckPropertiesView::empty(),
                                    },
                                    off2,
                                ),
                            )
                        } else {
                            match spec_read_properties(s, off2, spec_ack_scope(typ)) {
                                Err(e) => Err(e),
                                Ok((items, off3)) => Ok(
                                    (
                                        AckView {
                                            pid,
                                            reason_code: byte,
                                            properties: AckPropertiesView::spec_from_items(
                                                items,
                                            ),
                                        },
                                        off3,
                                    ),
                                ),
                            }
                        },
                    }
                },
            },
        }
    }
}

/// Whether `byte` is a reason code of the given type of acknowledgement.
fn ack_code_ok(typ: PacketType, byte: u8) -> (b: bool)
    ensures
        b == spec_ack_code_ok(typ, byte),
{
    match typ {
        PacketType::Puback => PubackReasonCode::from_u8(byte).is_some(),
        PacketType::Pubrec => PubrecReasonCode::from_u8(byte).is_some(),
        PacketType::Pubrel => PubrelReasonCode::from_u8(byte).is_some(),
        PacketType::Pubcomp => PubcompReasonCode::from_u8(byte).is_some(),
        _ => false,
    }
}

/// The place of the properties of the given type of acknowledgement.
fn ack_scope(typ: PacketType) -> (s: PropertyScope)
    ensures
        s == spec_ack_scope(typ),
{
    match typ {
        PacketType::Puback => PropertyScope::Puback,
        PacketType::Pubrec => PropertyScope::Pubrec,
        PacketType::Pubrel => PropertyScope::Pubrel,
        _ => PropertyScope::Pubcomp,
    }
}

/// Reads an acknowledgement: identifier, byte of the reason code, block of
/// properties.
fn decode_ack(buf: &[u8], offset: &mut usize, remaining_len: u32, typ: PacketType) -> (res: Result<
    (Pid, u8, Properties),
    ErrorV5,
>)
    ensures
        match AckView::spec_decode(buf@, *old(offset) as int, remaining_len as int, typ) {
            Ok((v, end)) => res is Ok && *final(offset) == end && res->Ok_0.0@ == v.pid
                && res->Ok_0.1 == v.reason_code && AckPropertiesView::spec_from_items(
                res->Ok_0.2@,
            ) == v.properties && (spec_ack_code_ok(typ, v.reason_code) || v.reason_code == 0),
            Err(e) => res is Err && res->Err_0@ == e,
        },
{
    let pid = lift(Pid::from_u16(lift(read_u16(buf, offset))?))?;
    if remaining_len == 2 {
        return Ok((pid, 0, Properties::new()));
    }
    let byte = lift(read_u8(buf, offset))?;
    if !ack_code_ok(typ, byte) {
        return Err(ErrorV5::InvalidReasonCode(typ, byte));
    }
    if remaining_len == 3 {
        return Ok((pid, byte, Properties::new()));
    }
    let props = Properties::decode(buf, offset, ack_scope(typ))?;
    Ok((pid, byte, props))
}

/// The properties of an acknowledgement as a block.
fn ack_properties(reason_string: &Option<String>, users: &Vec<UserProperty>) -> (props: Properties)
    ensures
        props@ == (AckPropertiesView {
            reason_string: match *reason_string {
                Some(s) => Some(s@),
                None => None,
            },
            user_properties: users_view(users@),
        }).spec_items(),
{
    let mut props = Properties::new();
    let v1 = match reason_string {
        Some(s) => Some(PropertyValue::Text(s.clone())),
        None => None,
    };
    props.push_opt(PropertyId::ReasonString, v1);
    assert(props@ =~= spec_opt_item(
        PropertyId::ReasonString,
        match *reason_string {
            Some(v) => Some(PropertyValueView::Text(v@)),
            None => None,
        },
    ));
    props.push_users(users);
    props
}

/// Whether an acknowledgement has no property.
fn ack_is_default(reason_string: &Option<String>, users: &Vec<UserProperty>) -> (b: bool)
    ensures
        b == ((AckPropertiesView {
            reason_string: match *reason_string {
                Some(s) => Some(s@),
                None => None,
            },
            user_properties: users_view(users@),
        }) == AckPropertiesView::empty()),
{
    let b = reason_string.is_none() && users.len() == 0;
    proof {
        if users@.len() == 0 {
            assert(users_view(users@) =~= Seq::empty());
        } else {
            assert(users_view(users@).len() != 0);
        }
    }
    b
}

/// Appends an acknowledgement.
fn encode_ack(
    out: &mut Vec<u8>,
    pid: Pid,
    code: u8,
    reason_string: &Option<String>,
    users: &Vec<UserProperty>,
) -> (res: Result<(), ErrorV5>)
    ensures
        ({
            let v = AckView {
                pid: pid@,
                reason_code: code,
                properties: AckPropertiesView {
                    reason_string: match *reason_string {
                        Some(s) => Some(s@),
                        None => None,
                    },
                    user_properties: users_view(users@),
                },
            };
            match res {
                Ok(_) => v.fits() && final(out)@ == old(out)@ + v.spec_bytes(),
                Err(e) => e == ErrorV5::Common(Error::PayloadTooLong) && !v.fits() && final(out)@
                    == old(out)@,
            }
        }),
{
    if ack_is_default(reason_string, users) {
        write_u16(out, pid.value());
        if code != 0 {
            write_u8(out, code);
        }
        assert(out@ =~= old(out)@ + spec_u16_bytes(pid@) + (if code == 0 {
            Seq::<u8>::empty()
        } else {
            seq![code]
        }));
        Ok(())
    } else {
        let props = ack_properties(reason_string, users);
        if props.checked_len().is_none() {
            return Err(ErrorV5::Common(Error::PayloadTooLong));
        }
        write_u16(out, pid.value());
        write_u8(out, code);
        let r = props.encode(out);
        assert(out@ =~= old(out)@ + spec_u16_bytes(pid@) + (seq![code] + spec_properties_bytes(
            props@,
        )));
        Ok(())
    }
}

/// The number of bytes of an acknowledgement.
fn ack_encode_len(code: u8, reason_string: &Option<String>, users: &Vec<UserProperty>) -> (n: usize)
    requires
        (AckView {
            pid: 1,
            reason_code: code,
            properties: AckPropertiesView {
                reason_string: match *reason_string {
                    Some(s) => Some(s@),
                    None => None,
                },
                user_properties: users_view(users@),
            },
        }).fits(),
    ensures
        n == (AckView {
            pid: 1,
            reason_code: code,
            properties: AckPropertiesView {
                reason_string: match *reason_string {
                    Some(s) => Some(s@),
                    None => None,
                },
                user_properties: users_view(users@),
            },
        }).spec_bytes().len(),
{
    if ack_is_default(reason_string, users) {
        if code == 0 {
            2
        } else {
            3
        }
    } else {
        3 + ack_properties(reason_string, users).encode_len()
    }
}

/// Body of a puback packet.
#[derive(Debug, Clone, PartialEq, Eq)]
pub struct Puback {
    pub pid: Pid,
    pub reason_code: PubackReasonCode,
    pub properties: PubackProperties,
}

impl View for Puback {
    type V = AckView;

    open spec fn view(&self) -> AckView {
        AckView {
            pid: self.pid@,
            reason_code: self.reason_code.spec_to_u8(),
            properties: self.properties@,
        }
    }
}

impl Puback {
    /// A puback packet without properties.
    pub fn new(pid: Pid, reason_code: PubackReasonCode) -> (p: Puback)
        ensures
            p@ == (AckView {
                pid: pid@,
                reason_code: reason_code.spec_to_u8(),
                properties: AckPropertiesView::empty(),
            }),
    {
        Puback { pid, reason_code, properties: PubackProperties::default() }
    }

    /// A puback packet that reports success.
    pub fn new_success(pid: Pid) -> (p: Puback)
        ensures
            p@ == (AckView { pid: pid@, reason_code: 0, properties: AckPropertiesView::empty() }),
    {
        Self::new(pid, PubackReasonCode::Success)
    }

    /// Reads the body of a puback packet at `offset`, in the form that the
    /// remaining length of `header` selects. `InvalidReasonCode` for a byte
    /// outside the set of [`PubackReasonCode`].
    pub fn decode(buf: &[u8], offset: &mut usize, header: Header) -> (res: Result<Puback, ErrorV5>)
        ensures
            read_agrees5(
                res,
                *final(offset),
                AckView::spec_decode(
                    buf@,
                    *old(offset) as int,
                    header.remaining_len as int,
                    PacketType::Puback,
                ),
            ),
    {
        let (pid, byte, props) = decode_ack(buf, offset, header.remaining_len, PacketType::Puback)?;
        let reason_code = match PubackReasonCode::from_u8(byte) {
            Some(c) => c,
            None => {
                return Err(ErrorV5::InvalidReasonCode(PacketType::Puback, byte));
            },
        };
        Ok(Puback { pid, reason_code, properties: PubackProperties::from_properties(&props) })
    }

    /// Appends the body of the packet, or fails with `PayloadTooLong`,
    /// leaving `out` as it was, where the properties have no encoding.
    pub fn encode(&self, out: &mut Vec<u8>) -> (res: Result<(), ErrorV5>)
        ensures
            match res {
                Ok(_) => self@.fits() && final(out)@ == old(out)@ + self@.spec_bytes(),
                Err(e) => e == ErrorV5::Common(Error::PayloadTooLong) && !self@.fits() && final(out)@ == old(out)@,
            },
    {
        encode_ack(
            out,
            self.pid,
            self.reason_code.to_u8(),
            &self.properties.reason_string,
            &self.properties.user_properties,
        )
    }

    /// The number of bytes of the packet's body.
    pub fn encode_len(&self) -> (n: usize)
        requires
            self@.fits(),
        ensures
            n == self@.spec_bytes().len(),
    {
        ack_encode_len(
            self.reason_code.to_u8(),
            &self.properties.reason_string,
            &self.properties.user_properties,
        )
    }
}

/// The properties of a puback packet.
#[derive(Debug, Clone, PartialEq, Eq)]
pub struct PubackProperties {
    pub reason_string: Option<String>,
    pub user_properties: Vec<UserProperty>,
}

impl View for PubackProperties {
    type V = AckPropertiesView;

    open spec fn view(&self) -> AckPropertiesView {
        AckPropertiesView {
            reason_string: match self.reason_string {
                Some(s) => Some(s@),
                None => None,
            },
            user_properties: users_view(self.user_properties@),
        }
    }
}

impl Default for PubackProperties {
    fn default() -> (p: PubackProperties)
        ensures
            p@ == AckPropertiesView::empty(),
    {
        let p = PubackProperties { reason_string: None, user_properties: Vec::new() };
        assert(users_view(p.user_properties@) =~= Seq::empty());
        p
    }
}

impl PubackProperties {
    /// Picks the properties of a puback packet out of a block.
    pub fn from_properties(props: &Properties) -> (res: PubackProperties)
        ensures
            res@ == AckPropertiesView::spec_from_items(props@),
    {
        PubackProperties {
            reason_string: props.find_text(PropertyId::ReasonString),
            user_properties: props.user_properties(),
        }
    }

    /// The properties as a block, in the order in which they are written.
    pub fn to_properties(&self) -> (props: Properties)
        ensures
            props@ == self@.spec_items(),
    {
        ack_properties(&self.reason_string, &self.user_properties)
    }

    /// Reads the block of properties of a puback packet at `offset`.
    pub fn decode(buf: &[u8], offset: &mut usize) -> (res: Result<PubackProperties, ErrorV5>)
        ensures
            read_agrees5(
                res,
                *final(offset),
                match spec_read_properties(buf@, *old(offset) as int, PropertyScope::Puback) {
                    Err(e) => Err(e),
                    Ok((items, end)) => Ok((AckPropertiesView::spec_from_items(items), end)),
                },
            ),
    {
        let props = Properties::decode(buf, offset, PropertyScope::Puback)?;
        Ok(PubackProperties::from_properties(&props))
    }

    /// Appends the block of properties, or fails with `PayloadTooLong`,
    /// leaving `out` as it was, where they have no encoding.
    pub fn encode(&self, out: &mut Vec<u8>) -> (res: Result<(), ErrorV5>)
        ensures
            match res {
                Ok(_) => self@.fits() && final(out)@ == old(out)@ + spec_properties_bytes(
                    self@.spec_items(),
                ),
                Err(e) => e == ErrorV5::Common(Error::PayloadTooLong) && !self@.fits() && final(out)@ == old(out)@,
            },
    {
        self.to_properties().encode(out)
    }

    /// The number of bytes of the block of properties.
    pub fn encode_len(&self) -> (n: usize)
        requires
            self@.fits(),
        ensures
            n == spec_properties_bytes(self@.spec_items()).len(),
    {
        self.to_properties().encode_len()
    }
}

/// Reason code of a puback packet.
#[derive(Debug, Clone, Copy, PartialEq, Eq, Structural, Hash)]
pub enum PubackReasonCode {
    Success,
    NoMatchingSubscribers,
    UnspecifiedError,
    ImplementationSpecificError,
    NotAuthorized,
    TopicNameInvalid,
    PacketIdentifierInUse,
    QuotaExceeded,
    PayloadFormatInvalid,
}

impl View for PubackReasonCode {
    type V = PubackReasonCode;

    open spec fn view(&self) -> PubackReasonCode {
        *self
    }
}

impl PubackReasonCode {
    /// The code with the given byte, if the byte is one of this set.
    pub open spec fn spec_from_u8(value: u8) -> Option<PubackReasonCode> {
        match value {
            0x00 => Some(PubackReasonCode::Success),
            0x10 => Some(PubackReasonCode::NoMatchingSubscribers),
            0x80 => Some(PubackReasonCode::UnspecifiedError),
            0x83 => Some(PubackReasonCode::ImplementationSpecificError),
            0x87 => Some(PubackReasonCode::NotAuthorized),
            0x90 => Some(PubackReasonCode::TopicNameInvalid),
            0x91 => Some(PubackReasonCode::PacketIdentifierInUse),
            0x97 => Some(PubackReasonCode::QuotaExceeded),
            0x99 => Some(PubackReasonCode::PayloadFormatInvalid),
            _ => None,
        }
    }

    /// The code's byte on the wire.
    pub open spec fn spec_to_u8(self) -> u8 {
        match self {
            PubackReasonCode::Success => 0x00,
            PubackReasonCode::NoMatchingSubscribers => 0x10,
            PubackReasonCode::UnspecifiedError => 0x80,
            PubackReasonCode::ImplementationSpecificError => 0x83,
            PubackReasonCode::NotAuthorized => 0x87,
            PubackReasonCode::TopicNameInvalid => 0x90,
            PubackReasonCode::PacketIdentifierInUse => 0x91,
            PubackReasonCode::QuotaExceeded => 0x97,
            PubackReasonCode::PayloadFormatInvalid => 0x99,
        }
    }

    /// The code with the given byte, if the byte is one of this set.
    pub fn from_u8(value: u8) -> (res: Option<PubackReasonCode>)
        ensures
            res == Self::spec_from_u8(value),
            res matches Some(c) ==> c.spec_to_u8() == value,
    {
        match value {
            0x00 => Some(PubackReasonCode::Success),
            0x10 => Some(PubackReasonCode::NoMatchingSubscribers),
            0x80 => Some(PubackReasonCode::UnspecifiedError),
            0x83 => Some(PubackReasonCode::ImplementationSpecificError),
            0x87 => Some(PubackReasonCode::NotAuthorized),
            0x90 => Some(PubackReasonCode::TopicNameInvalid),
            0x91 => Some(PubackReasonCode::PacketIdentifierInUse),
            0x97 => Some(PubackReasonCode::QuotaExceeded),
            0x99 => Some(PubackReasonCode::PayloadFormatInvalid),
            _ => None,
        }
    }

    /// The code's byte on the wire.
    #[verifier::when_used_as_spec(spec_to_u8)]
    pub fn to_u8(self) -> (b: u8)
        ensures
            b == self.spec_to_u8(),
            Self::spec_from_u8(b) == Some(self),
    {
        match self {
            PubackReasonCode::Success => 0x00,
            PubackReasonCode::NoMatchingSubscribers => 0x10,
            PubackReasonCode::UnspecifiedError => 0x80,
            PubackReasonCode::ImplementationSpecificError => 0x83,
            PubackReasonCode::NotAuthorized => 0x87,
            PubackReasonCode::TopicNameInvalid => 0x90,
            PubackReasonCode::PacketIdentifierInUse => 0x91,
            PubackReasonCode::QuotaExceeded => 0x97,
            PubackReasonCode::PayloadFormatInvalid => 0x99,
        }
    }
}

/// Body of a pubrec packet.
#[derive(Debug, Clone, PartialEq, Eq)]
pub struct Pubrec {
    pub pid: Pid,
    pub reason_code: PubrecReasonCode,
    pub properties: PubrecProperties,
}

impl View for Pubrec {
    type V = AckView;

    open spec fn view(&self) -> AckView {
        AckView {
            pid: self.pid@,
            reason_code: self.reason_code.spec_to_u8(),
            properties: self.properties@,
        }
    }
}

impl Pubrec {
    /// A pubrec packet without properties.
    pub fn new(pid: Pid, reason_code: PubrecReasonCode) -> (p: Pubrec)
        ensures
            p@ == (AckView {
                pid: pid@,
                reason_code: reason_code.spec_to_u8(),
                properties: AckPropertiesView::empty(),
            }),
    {
        Pubrec { pid, reason_code, properties: PubrecProperties::default() }
    }

    /// A pubrec packet that reports success.
    pub fn new_success(pid: Pid) -> (p: Pubrec)
        ensures
            p@ == (AckView { pid: pid@, reason_code: 0, properties: AckPropertiesView::empty() }),
    {
        Self::new(pid, PubrecReasonCode::Success)
    }

    /// Reads the body of a pubrec packet at `offset`, in the form that the
    /// remaining length of `header` selects. `InvalidReasonCode` for a byte
    /// outside the set of [`PubrecReasonCode`].
    pub fn decode(buf: &[u8], offset: &mut usize, header: Header) -> (res: Result<Pubrec, ErrorV5>)
        ensures
            read_agrees5(
                res,
                *final(offset),
                AckView::spec_decode(
                    buf@,
                    *old(offset) as int,
                    header.remaining_len as int,
                    PacketType::Pubrec,
                ),
            ),
    {
        let (pid, byte, props) = decode_ack(buf, offset, header.remaining_len, PacketType::Pubrec)?;
        let reason_code = match PubrecReasonCode::from_u8(byte) {
            Some(c) => c,
            None => {
                return Err(ErrorV5::InvalidReasonCode(PacketType::Pubrec, byte));
            },
        };
        Ok(Pubrec { pid, reason_code, properties: PubrecProperties::from_properties(&props) })
    }

    /// Appends the body of the packet, or fails with `PayloadTooLong`,
    /// leaving `out` as it was, where the properties have no encoding.
    pub fn encode(&self, out: &mut Vec<u8>) -> (res: Result<(), ErrorV5>)
        ensures
            match res {
                Ok(_) => self@.fits() && final(out)@ == old(out)@ + self@.spec_bytes(),
                Err(e) => e == ErrorV5::Common(Error::PayloadTooLong) && !self@.fits() && final(out)@ == old(out)@,
            },
    {
        encode_ack(
            out,
            self.pid,
            self.reason_code.to_u8(),
            &self.properties.reason_string,
            &self.properties.user_properties,
        )
    }

    /// The number of bytes of the packet's body.
    pub fn encode_len(&self) -> (n: usize)
        requires
            self@.fits(),
        ensures
            n == self@.spec_bytes().len(),
    {
        ack_encode_len(
            self.reason_code.to_u8(),
            &self.properties.reason_string,
            &self.properties.user_properties,
        )
    }
}

/// The properties of a pubrec packet.
#[derive(Debug, Clone, PartialEq, Eq)]
pub struct PubrecProperties {
    pub reason_string: Option<String>,
    pub user_properties: Vec<UserProperty>,
}

impl View for PubrecProperties {
    type V = AckPropertiesView;

    open spec fn view(&self) -> AckPropertiesView {
        AckPropertiesView {
            reason_string: match self.reason_string {
                Some(s) => Some(s@),
                None => None,
            },
            user_properties: users_view(self.user_properties@),
        }
    }
}

impl Default for PubrecProperties {
    fn default() -> (p: PubrecProperties)
        ensures
            p@ == AckPropertiesView::empty(),
    {
        let p = PubrecProperties { reason_string: None, user_properties: Vec::new() };
        assert(users_view(p.user_properties@) =~= Seq::empty());
        p
    }
}

impl PubrecProperties {
    /// Picks the properties of a pubrec packet out of a block.
    pub fn from_properties(props: &Properties) -> (res: PubrecProperties)
        ensures
            res@ == AckPropertiesView::spec_from_items(props@),
    {
        PubrecProperties {
            reason_string: props.find_text(PropertyId::ReasonString),
            user_properties: props.user_properties(),
        }
    }

    /// The properties as a block, in the order in which they are written.
    pub fn to_properties(&self) -> (props: Properties)
        ensures
            props@ == self@.spec_items(),
    {
        ack_properties(&self.reason_string, &self.user_properties)
    }

    /// Reads the block of properties of a pubrec packet at `offset`.
    pub fn decode(buf: &[u8], offset: &mut usize) -> (res: Result<PubrecProperties, ErrorV5>)
        ensures
            read_agrees5(
                res,
                *final(offset),
                match spec_read_properties(buf@, *old(offset) as int, PropertyScope::Pubrec) {
                    Err(e) => Err(e),
                    Ok((items, end)) => Ok((AckPropertiesView::spec_from_items(items), end)),
                },
            ),
    {
        let props = Properties::decode(buf, offset, PropertyScope::Pubrec)?;
        Ok(PubrecProperties::from_properties(&props))
    }

    /// Appends the block of properties, or fails with `PayloadTooLong`,
    /// leaving `out` as it was, where they have no encoding.
    pub fn encode(&self, out: &mut Vec<u8>) -> (res: Result<(), ErrorV5>)
        ensures
            match res {
                Ok(_) => self@.fits() && final(out)@ == old(out)@ + spec_properties_bytes(
                    self@.spec_items(),
                ),
                Err(e) => e == ErrorV5::Common(Error::PayloadTooLong) && !self@.fits() && final(out)@ == old(out)@,
            },
    {
        self.to_properties().encode(out)
    }

    /// The number of bytes of the block of properties.
    pub fn encode_len(&self) -> (n: usize)
        requires
            self@.fits(),
        ensures
            n == spec_properties_bytes(self@.spec_items()).len(),
    {
        self.to_properties().encode_len()
    }
}

/// Reason code of a pubrec packet.
#[derive(Debug, Clone, Copy, PartialEq, Eq, Structural, Hash)]
pub enum PubrecReasonCode {
    Success,
    NoMatchingSubscribers,
    UnspecifiedError,
    ImplementationSpecificError,
    NotAuthorized,
    TopicNameInvalid,
    PacketIdentifierInUse,
    QuotaExceeded,
    PayloadFormatInvalid,
}

impl View for PubrecReasonCode {
    type V = PubrecReasonCode;

    open spec fn view(&self) -> PubrecReasonCode {
        *self
    }
}

impl PubrecReasonCode {
    /// The code with the given byte, if the byte is one of this set.
    pub open spec fn spec_from_u8(value: u8) -> Option<PubrecReasonCode> {
        match value {
            0x00 => Some(PubrecReasonCode::Success),
            0x10 => Some(PubrecReasonCode::NoMatchingSubscribers),
            0x80 => Some(PubrecReasonCode::UnspecifiedError),
            0x83 => Some(PubrecReasonCode::ImplementationSpecificError),
            0x87 => Some(PubrecReasonCode::NotAuthorized),
            0x90 => Some(PubrecReasonCode::TopicNameInvalid),
            0x91 => Some(PubrecReasonCode::PacketIdentifierInUse),
            0x97 => Some(PubrecReasonCode::QuotaExceeded),
            0x99 => Some(PubrecReasonCode::PayloadFormatInvalid),
            _ => None,
        }
    }

    /// The code's byte on the wire.
    pub open spec fn spec_to_u8(self) -> u8 {
        match self {
            PubrecReasonCode::Success => 0x00,
            PubrecReasonCode::NoMatchingSubscribers => 0x10,
            PubrecReasonCode::UnspecifiedError => 0x80,
            PubrecReasonCode::ImplementationSpecificError => 0x83,
            PubrecReasonCode::NotAuthorized => 0x87,
            PubrecReasonCode::TopicNameInvalid => 0x90,
            PubrecReasonCode::PacketIdentifierInUse => 0x91,
            PubrecReasonCode::QuotaExceeded => 0x97,
            PubrecReasonCode::PayloadFormatInvalid => 0x99,
        }
    }

    /// The code with the given byte, if the byte is one of this set.
    pub fn from_u8(value: u8) -> (res: Option<PubrecReasonCode>)
        ensures
            res == Self::spec_from_u8(value),
            res matches Some(c) ==> c.spec_to_u8() == value,
    {
        match value {
            0x00 => Some(PubrecReasonCode::Success),
            0x10 => Some(PubrecReasonCode::NoMatchingSubscribers),
            0x80 => Some(PubrecReasonCode::UnspecifiedError),
            0x83 => Some(PubrecReasonCode::ImplementationSpecificError),
            0x87 => Some(PubrecReasonCode::NotAuthorized),
            0x90 => Some(PubrecReasonCode::TopicNameInvalid),
            0x91 => Some(PubrecReasonCode::PacketIdentifierInUse),
            0x97 => Some(PubrecReasonCode::QuotaExceeded),
            0x99 => Some(PubrecReasonCode::PayloadFormatInvalid),
            _ => None,
        }
    }

    /// The code's byte on the wire.
    #[verifier::when_used_as_spec(spec_to_u8)]
    pub fn to_u8(self) -> (b: u8)
        ensures
            b == self.spec_to_u8(),
            Self::spec_from_u8(b) == Some(self),
    {
        match self {
            PubrecReasonCode::Success => 0x00,
            PubrecReasonCode::NoMatchingSubscribers => 0x10,
            PubrecReasonCode::UnspecifiedError => 0x80,
            PubrecReasonCode::ImplementationSpecificError => 0x83,
            PubrecReasonCode::NotAuthorized => 0x87,
            PubrecReasonCode::TopicNameInvalid => 0x90,
            PubrecReasonCode::PacketIdentifierInUse => 0x91,
            PubrecReasonCode::QuotaExceeded => 0x97,
            PubrecReasonCode::PayloadFormatInvalid => 0x99,
        }
    }
}

/// Body of a pubrel packet.
#[derive(Debug, Clone, PartialEq, Eq)]
pub struct Pubrel {
    pub pid: Pid,
    pub reason_code: PubrelReasonCode,
    pub properties: PubrelProperties,
}

impl View for Pubrel {
    type V = AckView;

    open spec fn view(&self) -> AckView {
        AckView {
            pid: self.pid@,
            reason_code: self.reason_code.spec_to_u8(),
            properties: self.properties@,
        }
    }
}

impl Pubrel {
    /// A pubrel packet without properties.
    pub fn new(pid: Pid, reason_code: PubrelReasonCode) -> (p: Pubrel)
        ensures
            p@ == (AckView {
                pid: pid@,
                reason_code: reason_code.spec_to_u8(),
                properties: AckPropertiesView::empty(),
            }),
    {
        Pubrel { pid, reason_code, properties: PubrelProperties::default() }
    }

    /// A pubrel packet that reports success.
    pub fn new_success(pid: Pid) -> (p: Pubrel)
        ensures
            p@ == (AckView { pid: pid@, reason_code: 0, properties: AckPropertiesView::empty() }),
    {
        Self::new(pid, PubrelReasonCode::Success)
    }

    /// Reads the body of a pubrel packet at `offset`, in the form that the
    /// remaining length of `header` selects. `InvalidReasonCode` for a byte
    /// outside the set of [`PubrelReasonCode`].
    pub fn decode(buf: &[u8], offset: &mut usize, header: Header) -> (res: Result<Pubrel, ErrorV5>)
        ensures
            read_agrees5(
                res,
                *final(offset),
                AckView::spec_decode(
                    buf@,
                    *old(offset) as int,
                    header.remaining_len as int,
                    PacketType::Pubrel,
                ),
            ),
    {
        let (pid, byte, props) = decode_ack(buf, offset, header.remaining_len, PacketType::Pubrel)?;
        let reason_code = match PubrelReasonCode::from_u8(byte) {
            Some(c) => c,
            None => {
                return Err(ErrorV5::InvalidReasonCode(PacketType::Pubrel, byte));
            },
        };
        Ok(Pubrel { pid, reason_code, properties: PubrelProperties::from_properties(&props) })
    }

    /// Appends the body of the packet, or fails with `PayloadTooLong`,
    /// leaving `out` as it was, where the properties have no encoding.
    pub fn encode(&self, out: &mut Vec<u8>) -> (res: Result<(), ErrorV5>)
        ensures
            match res {
                Ok(_) => self@.fits() && final(out)@ == old(out)@ + self@.spec_bytes(),
                Err(e) => e == ErrorV5::Common(Error::PayloadTooLong) && !self@.fits() && final(out)@ == old(out)@,
            },
    {
        encode_ack(
            out,
            self.pid,
            self.reason_code.to_u8(),
            &self.properties.reason_string,
            &self.properties.user_properties,
        )
    }

    /// The number of bytes of the packet's body.
    pub fn encode_len(&self) -> (n: usize)
        requires
            self@.fits(),
        ensures
            n == self@.spec_bytes().len(),
    {
        ack_encode_len(
            self.reason_code.to_u8(),
            &self.properties.reason_string,
            &self.properties.user_properties,
        )
    }
}

/// The properties of a pubrel packet.
#[derive(Debug, Clone, PartialEq, Eq)]
pub struct PubrelProperties {
    pub reason_string: Option<String>,
    pub user_properties: Vec<UserProperty>,
}

impl View for PubrelProperties {
    type V = AckPropertiesView;

    open spec fn view(&self) -> AckPropertiesView {
        AckPropertiesView {
            reason_string: match self.reason_string {
                Some(s) => Some(s@),
                None => None,
            },
            user_properties: users_view(self.user_properties@),
        }
    }
}

impl Default for PubrelProperties {
    fn default() -> (p: PubrelProperties)
        ensures
            p@ == AckPropertiesView::empty(),
    {
        let p = PubrelProperties { reason_string: None, user_properties: Vec::new() };
        assert(users_view(p.user_properties@) =~= Seq::empty());
        p
    }
}

impl PubrelProperties {
    /// Picks the properties of a pubrel packet out of a block.
    pub fn from_properties(props: &Properties) -> (res: PubrelProperties)
        ensures
            res@ == AckPropertiesView::spec_from_items(props@),
    {
        PubrelProperties {
            reason_string: props.find_text(PropertyId::ReasonString),
            user_properties: props.user_properties(),
        }
    }

    /// The properties as a block, in the order in which they are written.
    pub fn to_properties(&self) -> (props: Properties)
        ensures
            props@ == self@.spec_items(),
    {
        ack_properties(&self.reason_string, &self.user_properties)
    }

    /// Reads the block of properties of a pubrel packet at `offset`.
    pub fn decode(buf: &[u8], offset: &mut usize) -> (res: Result<PubrelProperties, ErrorV5>)
        ensures
            read_agrees5(
                res,
                *final(offset),
                match spec_read_properties(buf@, *old(offset) as int, PropertyScope::Pubrel) {
                    Err(e) => Err(e),
                    Ok((items, end)) => Ok((AckPropertiesView::spec_from_items(items), end)),
                },
            ),
    {
        let props = Properties::decode(buf, offset, PropertyScope::Pubrel)?;
        Ok(PubrelProperties::from_properties(&props))
    }

    /// Appends the block of properties, or fails with `PayloadTooLong`,
    /// leaving `out` as it was, where they have no encoding.
    pub fn encode(&self, out: &mut Vec<u8>) -> (res: Result<(), ErrorV5>)
        ensures
            match res {
                Ok(_) => self@.fits() && final(out)@ == old(out)@ + spec_properties_bytes(
                    self@.spec_items(),
                ),
                Err(e) => e == ErrorV5::Common(Error::PayloadTooLong) && !self@.fits() && final(out)@ == old(out)@,
            },
    {
        self.to_properties().encode(out)
    }

    /// The number of bytes of the block of properties.
    pub fn encode_len(&self) -> (n: usize)
        requires
            self@.fits(),
        ensures
            n == spec_properties_bytes(self@.spec_items()).len(),
    {
        self.to_properties().encode_len()
    }
}

/// Reason code of a pubrel packet.
#[derive(Debug, Clone, Copy, PartialEq, Eq, Structural, Hash)]
pub enum PubrelReasonCode {
    Success,
    PacketIdentifierNotFound,
}

impl View for PubrelReasonCode {
    type V = PubrelReasonCode;

    open spec fn view(&self) -> PubrelReasonCode {
        *self
    }
}

impl PubrelReasonCode {
    /// The code with the given byte, if the byte is one of this set.
    pub open spec fn spec_from_u8(value: u8) -> Option<PubrelReasonCode> {
        match value {
            0x00 => Some(PubrelReasonCode::Success),
            0x92 => Some(PubrelReasonCode::PacketIdentifierNotFound),
            _ => None,
        }
    }

    /// The code's byte on the wire.
    pub open spec fn spec_to_u8(self) -> u8 {
        match self {
            PubrelReasonCode::Success => 0x00,
            PubrelReasonCode::PacketIdentifierNotFound => 0x92,
        }
    }

    /// The code with the given byte, if the byte is one of this set.
    pub fn from_u8(value: u8) -> (res: Option<PubrelReasonCode>)
        ensures
            res == Self::spec_from_u8(value),
            res matches Some(c) ==> c.spec_to_u8() == value,
    {
        match value {
            0x00 => Some(PubrelReasonCode::Success),
            0x92 => Some(PubrelReasonCode::PacketIdentifierNotFound),
            _ => None,
        }
    }

    /// The code's byte on the wire.
    #[verifier::when_used_as_spec(spec_to_u8)]
    pub fn to_u8(self) -> (b: u8)
        ensures
            b == self.spec_to_u8(),
            Self::spec_from_u8(b) == Some(self),
    {
        match self {
            PubrelReasonCode::Success => 0x00,
            PubrelReasonCode::PacketIdentifierNotFound => 0x92,
        }
    }
}

/// Body of a pubcomp packet.
#[derive(Debug, Clone, PartialEq, Eq)]
pub struct Pubcomp {
    pub pid: Pid,
    pub reason_code: PubcompReasonCode,
    pub properties: PubcompProperties,
}

impl View for Pubcomp {
    type V = AckView;

    open spec fn view(&self) -> AckView {
        AckView {
            pid: self.pid@,
            reason_code: self.reason_code.spec_to_u8(),
            properties: self.properties@,
        }
    }
}

impl Pubcomp {
    /// A pubcomp packet without properties.
    pub fn new(pid: Pid, reason_code: PubcompReasonCode) -> (p: Pubcomp)
        ensures
            p@ == (AckView {
                pid: pid@,
                reason_code: reason_code.spec_to_u8(),
                properties: AckPropertiesView::empty(),
            }),
    {
        Pubcomp { pid, reason_code, properties: PubcompProperties::default() }
    }

    /// A pubcomp packet that reports success.
    pub fn new_success(pid: Pid) -> (p: Pubcomp)
        ensures
            p@ == (AckView { pid: pid@, reason_code: 0, properties: AckPropertiesView::empty() }),
    {
        Self::new(pid, PubcompReasonCode::Success)
    }

    /// Reads the body of a pubcomp packet at `offset`, in the form that the
    /// remaining length of `header` selects. `InvalidReasonCode` for a byte
    /// outside the set of [`PubcompReasonCode`].
    pub fn decode(buf: &[u8], offset: &mut usize, header: Header) -> (res: Result<Pubcomp, ErrorV5>)
        ensures
            read_agrees5(
                res,
                *final(offset),
                AckView::spec_decode(
                    buf@,
                    *old(offset) as int,
                    header.remaining_len as int,
                    PacketType::Pubcomp,
                ),
            ),
    {
        let (pid, byte, props) = decode_ack(buf, offset, header.remaining_len, PacketType::Pubcomp)?;
        let reason_code = match PubcompReasonCode::from_u8(byte) {
            Some(c) => c,
            None => {
                return Err(ErrorV5::InvalidReasonCode(PacketType::Pubcomp, byte));
            },
        };
        Ok(Pubcomp { pid, reason_code, properties: PubcompProperties::from_properties(&props) })
    }

    /// Appends the body of the packet, or fails with `PayloadTooLong`,
    /// leaving `out` as it was, where the properties have no encoding.
    pub fn encode(&self, out: &mut Vec<u8>) -> (res: Result<(), ErrorV5>)
        ensures
            match res {
                Ok(_) => self@.fits() && final(out)@ == old(out)@ + self@.spec_bytes(),
                Err(e) => e == ErrorV5::Common(Error::PayloadTooLong) && !self@.fits() && final(out)@ == old(out)@,
            },
    {
        encode_ack(
            out,
            self.pid,
            self.reason_code.to_u8(),
            &self.properties.reason_string,
            &self.properties.user_properties,
        )
    }

    /// The number of bytes of the packet's body.
    pub fn encode_len(&self) -> (n: usize)
        requires
            self@.fits(),
        ensures
            n == self@.spec_bytes().len(),
    {
        ack_encode_len(
            self.reason_code.to_u8(),
            &self.properties.reason_string,
            &self.properties.user_properties,
        )
    }
}

/// The properties of a pubcomp packet.
#[derive(Debug, Clone, PartialEq, Eq)]
pub struct PubcompProperties {
    pub reason_string: Option<String>,
    pub user_properties: Vec<UserProperty>,
}

impl View for PubcompProperties {
    type V = AckPropertiesView;

    open spec fn view(&self) -> AckPropertiesView {
        AckPropertiesView {
            reason_string: match self.reason_string {
                Some(s) => Some(s@),
                None => None,
            },
            user_properties: users_view(self.user_properties@),
        }
    }
}

impl Default for PubcompProperties {
    fn default() -> (p: PubcompProperties)
        ensures
            p@ == AckPropertiesView::empty(),
    {
        let p = PubcompProperties { reason_string: None, user_properties: Vec::new() };
        assert(users_view(p.user_properties@) =~= Seq::empty());
        p
    }
}

impl PubcompProperties {
    /// Picks the properties of a pubcomp packet out of a block.
    pub fn from_properties(props: &Properties) -> (res: PubcompProperties)
        ensures
            res@ == AckPropertiesView::spec_from_items(props@),
    {
        PubcompProperties {
            reason_string: props.find_text(PropertyId::ReasonString),
            user_properties: props.user_properties(),
        }
    }

    /// The properties as a block, in the order in which they are written.
    pub fn to_properties(&self) -> (props: Properties)
        ensures
            props@ == self@.spec_items(),
    {
        ack_properties(&self.reason_string, &self.user_properties)
    }

    /// Reads the block of properties of a pubcomp packet at `offset`.
    pub fn decode(buf: &[u8], offset: &mut usize) -> (res: Result<PubcompProperties, ErrorV5>)
        ensures
            read_agrees5(
                res,
                *final(offset),
                match spec_read_properties(buf@, *old(offset) as int, PropertyScope::Pubcomp) {
                    Err(e) => Err(e),
                    Ok((items, end)) => Ok((AckPropertiesView::spec_from_items(items), end)),
                },
            ),
    {
        let props = Properties::decode(buf, offset, PropertyScope::Pubcomp)?;
        Ok(PubcompProperties::from_properties(&props))
    }

    /// Appends the block of properties, or fails with `PayloadTooLong`,
    /// leaving `out` as it was, where they have no encoding.
    pub fn encode(&self, out: &mut Vec<u8>) -> (res: Result<(), ErrorV5>)
        ensures
            match res {
                Ok(_) => self@.fits() && final(out)@ == old(out)@ + spec_properties_bytes(
                    self@.spec_items(),
                ),
                Err(e) => e == ErrorV5::Common(Error::PayloadTooLong) && !self@.fits() && final(out)@ == old(out)@,
            },
    {
        self.to_properties().encode(out)
    }

    /// The number of bytes of the block of properties.
    pub fn encode_len(&self) -> (n: usize)
        requires
            self@.fits(),
        ensures
            n == spec_properties_bytes(self@.spec_items()).len(),
    {
        self.to_properties().encode_len()
    }
}

/// Reason code of a pubcomp packet.
#[derive(Debug, Clone, Copy, PartialEq, Eq, Structural, Hash)]
pub enum PubcompReasonCode {
    Success,
    PacketIdentifierNotFound,
}

impl View for PubcompReasonCode {
    type V = PubcompReasonCode;

    open spec fn view(&self) -> PubcompReasonCode {
        *self
    }
}

impl PubcompReasonCode {
    /// The code with the given byte, if the byte is one of this set.
    pub open spec fn spec_from_u8(value: u8) -> Option<PubcompReasonCode> {
        match value {
            0x00 => Some(PubcompReasonCode::Success),
            0x92 => Some(PubcompReasonCode::PacketIdentifierNotFound),
            _ => None,
        }
    }

    /// The code's byte on the wire.
    pub open spec fn spec_to_u8(self) -> u8 {
        match self {
            PubcompReasonCode::Success => 0x00,
            PubcompReasonCode::PacketIdentifierNotFound => 0x92,
        }
    }

    /// The code with the given byte, if the byte is one of this set.
    pub fn from_u8(value: u8) -> (res: Option<PubcompReasonCode>)
        ensures
            res == Self::spec_from_u8(value),
            res matches Some(c) ==> c.spec_to_u8() == value,
    {
        match value {
            0x00 => Some(PubcompReasonCode::Success),
            0x92 => Some(PubcompReasonCode::PacketIdentifierNotFound),
            _ => None,
        }
    }

    /// The code's byte on the wire.
    #[verifier::when_used_as_spec(spec_to_u8)]
    pub fn to_u8(self) -> (b: u8)
        ensures
            b == self.spec_to_u8(),
            Self::spec_from_u8(b) == Some(self),
    {
        match self {
            PubcompReasonCode::Success => 0x00,
            PubcompReasonCode::PacketIdentifierNotFound => 0x92,
        }
    }
}

} // verus!
