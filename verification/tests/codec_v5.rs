use bytes::Bytes;

use mqtt_proto::v5::{
    Auth, AuthReasonCode, Connack, Connect, ConnectReasonCode, Disconnect, DisconnectReasonCode,
    ErrorV5, Header, LastWill, Packet, PacketType, PollPacketState, Properties, Property,
    PropertyId, PropertyKind, PropertyScope, PropertyValue, Puback, PubackProperties,
    PubackReasonCode, Pubcomp, PubcompProperties, PubcompReasonCode, Publish, PublishProperties,
    Pubrec, PubrecProperties, PubrecReasonCode, Pubrel, PubrelProperties, PubrelReasonCode,
    RetainHandling, Suback, Subscribe, SubscribeReasonCode, SubscriptionOptions, Unsuback,
    Unsubscribe, UnsubscribeReasonCode, UserProperty,
};
use mqtt_proto::{
    total_len, Error, Pid, Polled, Protocol, QoS, QosPid, TopicFilter, TopicName, VarByteInt,
};

fn pid(n: u16) -> Pid {
    Pid::try_from(n).unwrap()
}

fn name(s: &str) -> TopicName {
    TopicName::try_from(s.to_owned()).unwrap()
}

fn filter(s: &str) -> TopicFilter {
    TopicFilter::try_from(s.to_owned()).unwrap()
}

fn user(k: &str, v: &str) -> UserProperty {
    UserProperty {
        name: k.to_owned(),
        value: v.to_owned(),
    }
}

fn props(items: Vec<(PropertyId, PropertyValue)>) -> Properties {
    let mut p = Properties::new();
    for (id, value) in items {
        p.push(id, value);
    }
    p
}

fn full_publish_properties() -> PublishProperties {
    PublishProperties {
        payload_is_utf8: Some(true),
        message_expiry_interval: Some(3600),
        topic_alias: Some(7),
        response_topic: Some(name("reply/to")),
        correlation_data: Some(Bytes::from_static(&[1, 2, 3])),
        user_properties: vec![user("k", "v"), user("k", "w")],
        subscription_id: Some(VarByteInt::try_from(300).unwrap()),
        content_type: Some("text/plain".to_owned()),
    }
}

fn sample_packets() -> Vec<Packet> {
    let mut connect = Connect::new("client".to_owned(), 30);
    connect.properties = props(vec![
        (PropertyId::SessionExpiryInterval, PropertyValue::FourByte(60)),
        (PropertyId::ReceiveMaximum, PropertyValue::TwoByte(20)),
        (
            PropertyId::UserProperty,
            PropertyValue::Pair("a".to_owned(), "b".to_owned()),
        ),
        (
            PropertyId::AuthenticationData,
            PropertyValue::Binary(Bytes::from_static(b"secret")),
        ),
    ]);
    let mut will = LastWill::new(QoS::Level2, name("will/t"), Bytes::from_static(b"gone"));
    will.retain = true;
    will.properties = props(vec![
        (PropertyId::WillDelayInterval, PropertyValue::FourByte(5)),
        (PropertyId::PayloadFormatIndicator, PropertyValue::Byte(1)),
    ]);
    connect.last_will = Some(will);
    connect.username = Some("u".to_owned());
    connect.password = Some(Bytes::from_static(b"p"));
    let mut connack = Connack::new(true, ConnectReasonCode::Success);
    connack.properties = props(vec![
        (PropertyId::MaximumQoS, PropertyValue::Byte(1)),
        (PropertyId::ServerKeepAlive, PropertyValue::TwoByte(120)),
        (
            PropertyId::AssignedClientIdentifier,
            PropertyValue::Text("srv-1".to_owned()),
        ),
    ]);
    let mut publish = Publish::new(
        QosPid::Level1(pid(9)),
        name("a/b"),
        Bytes::from_static(b"hello"),
    );
    publish.properties = full_publish_properties();
    let mut alias_only = Publish::new(QosPid::Level0, TopicName::empty(), Bytes::new());
    alias_only.properties.topic_alias = Some(3);
    let mut puback = Puback::new(pid(4), PubackReasonCode::QuotaExceeded);
    puback.properties = PubackProperties {
        reason_string: Some("full".to_owned()),
        user_properties: vec![user("x", "y")],
    };
    let mut pubrel = Pubrel::new_success(pid(6));
    pubrel.properties.user_properties = vec![user("only", "users")];
    let mut subscribe = Subscribe::new(
        pid(2),
        vec![
            (filter("a/+"), SubscriptionOptions::new(QoS::Level1)),
            (
                filter("$share/g/#"),
                SubscriptionOptions {
                    max_qos: QoS::Level2,
                    no_local: true,
                    retain_as_published: true,
                    retain_handling: RetainHandling::DoNotSend,
                },
            ),
        ],
    );
    subscribe.properties = props(vec![(
        PropertyId::SubscriptionIdentifier,
        PropertyValue::VarInt(200),
    )]);
    let mut disconnect = Disconnect::new(DisconnectReasonCode::ServerMoved);
    disconnect.properties = props(vec![(
        PropertyId::ServerReference,
        PropertyValue::Text("other:1883".to_owned()),
    )]);
    let mut auth = Auth::new(AuthReasonCode::ContinueAuthentication);
    auth.properties = props(vec![(
        PropertyId::AuthenticationMethod,
        PropertyValue::Text("SCRAM".to_owned()),
    )]);
    vec![
        Packet::Connect(connect),
        Packet::Connect(Connect::new(String::new(), 0)),
        Packet::Connack(connack),
        Packet::Connack(Connack::new(false, ConnectReasonCode::Banned)),
        Packet::Publish(publish),
        Packet::Publish(alias_only),
        Packet::Publish(Publish::new(QosPid::Level2(pid(1)), name("t"), Bytes::from(vec![0xff; 200]))),
        Packet::Puback(Puback::new_success(pid(10))),
        Packet::Puback(Puback::new(pid(10), PubackReasonCode::NotAuthorized)),
        Packet::Puback(puback),
        Packet::Pubrec(Pubrec::new_success(pid(11))),
        Packet::Pubrec(Pubrec::new(pid(11), PubrecReasonCode::PacketIdentifierInUse)),
        Packet::Pubrel(pubrel),
        Packet::Pubrel(Pubrel::new(pid(12), PubrelReasonCode::PacketIdentifierNotFound)),
        Packet::Pubcomp(Pubcomp::new_success(pid(13))),
        Packet::Pubcomp(Pubcomp::new(pid(13), PubcompReasonCode::PacketIdentifierNotFound)),
        Packet::Subscribe(subscribe),
        Packet::Suback(Suback::new(
            pid(2),
            vec![
                SubscribeReasonCode::GrantedQoS1,
                SubscribeReasonCode::NotAuthorized,
            ],
        )),
        Packet::Unsubscribe(Unsubscribe::new(pid(3), vec![filter("a"), filter("+/b")])),
        Packet::Unsuback(Unsuback::new(
            pid(3),
            vec![
                UnsubscribeReasonCode::Success,
                UnsubscribeReasonCode::NoSubscriptionExisted,
            ],
        )),
        Packet::Pingreq,
        Packet::Pingresp,
        Packet::Disconnect(Disconnect::new_normal()),
        Packet::Disconnect(Disconnect::new(DisconnectReasonCode::ServerBusy)),
        Packet::Disconnect(disconnect),
        Packet::Auth(Auth::new_success()),
        Packet::Auth(Auth::new(AuthReasonCode::ReAuthenticate)),
        Packet::Auth(auth),
    ]
}

#[test]
fn v5_puback_short_form() {
    match Packet::decode(&[0x40, 0x02, 0x00, 0x0A]).unwrap().unwrap() {
        Packet::Puback(p) => {
            assert_eq!(p.pid, pid(10));
            assert_eq!(p.reason_code, PubackReasonCode::Success);
            assert_eq!(p.properties, PubackProperties::default());
        }
        other => panic!("not a puback packet: {:?}", other),
    }
    assert_eq!(
        Packet::Puback(Puback::new_success(pid(10))).encode().unwrap(),
        vec![0x40, 0x02, 0x00, 0x0A]
    );
}

#[test]
fn v5_acknowledgement_forms() {
    assert_eq!(
        Packet::decode(&[0x40, 3, 0, 10, 0x10]),
        Ok(Some(Packet::Puback(Puback::new(
            pid(10),
            PubackReasonCode::NoMatchingSubscribers
        ))))
    );
    assert_eq!(
        Packet::Puback(Puback::new(pid(10), PubackReasonCode::NoMatchingSubscribers))
            .encode()
            .unwrap(),
        vec![0x40, 3, 0, 10, 0x10]
    );
    assert_eq!(
        Packet::decode(&[0x40, 4, 0, 10, 0, 0]),
        Ok(Some(Packet::Puback(Puback::new_success(pid(10)))))
    );
    let mut with_reason = Puback::new_success(pid(10));
    with_reason.properties.reason_string = Some("ok".to_owned());
    let bytes = vec![0x40, 9, 0, 10, 0, 5, 0x1f, 0, 2, b'o', b'k'];
    assert_eq!(Packet::Puback(with_reason.clone()).encode().unwrap(), bytes);
    assert_eq!(with_reason.encode_len(), 9);
    assert_eq!(Packet::decode(&bytes), Ok(Some(Packet::Puback(with_reason))));
    assert_eq!(
        Packet::decode(&[0x40, 3, 0, 10, 0x92]),
        Err(ErrorV5::InvalidReasonCode(PacketType::Puback, 0x92))
    );
    assert_eq!(
        Packet::decode(&[0x62, 3, 0, 10, 0x92]),
        Ok(Some(Packet::Pubrel(Pubrel::new(
            pid(10),
            PubrelReasonCode::PacketIdentifierNotFound
        ))))
    );
    assert_eq!(
        Packet::decode(&[0x62, 3, 0, 10, 0x10]),
        Err(ErrorV5::InvalidReasonCode(PacketType::Pubrel, 0x10))
    );
    assert_eq!(
        Packet::decode(&[0x50, 3, 0, 10, 0x01]),
        Err(ErrorV5::InvalidReasonCode(PacketType::Pubrec, 0x01))
    );
    assert_eq!(
        Packet::decode(&[0x70, 3, 0, 10, 0x80]),
        Err(ErrorV5::InvalidReasonCode(PacketType::Pubcomp, 0x80))
    );
    assert_eq!(
        Packet::decode(&[0x40, 2, 0, 0]),
        Err(ErrorV5::Common(Error::InvalidPid))
    );
    assert_eq!(
        Packet::decode(&[0x40, 7, 0, 10, 0, 3, 0x23, 0, 1]),
        Err(ErrorV5::InvalidPropertyId(PacketType::Puback, 0x23))
    );
}

#[test]
fn v5_reason_codes() {
    for (byte, code) in [
        (0x00u8, PubackReasonCode::Success),
        (0x10, PubackReasonCode::NoMatchingSubscribers),
        (0x80, PubackReasonCode::UnspecifiedError),
        (0x83, PubackReasonCode::ImplementationSpecificError),
        (0x87, PubackReasonCode::NotAuthorized),
        (0x90, PubackReasonCode::TopicNameInvalid),
        (0x91, PubackReasonCode::PacketIdentifierInUse),
        (0x97, PubackReasonCode::QuotaExceeded),
        (0x99, PubackReasonCode::PayloadFormatInvalid),
    ] {
        assert_eq!(PubackReasonCode::from_u8(byte), Some(code));
        assert_eq!(code.to_u8(), byte);
        assert_eq!(PubrecReasonCode::from_u8(byte).unwrap().to_u8(), byte);
    }
    assert_eq!(PubackReasonCode::from_u8(0x92), None);
    assert_eq!(PubrecReasonCode::from_u8(0x01), None);
    assert_eq!(PubrelReasonCode::from_u8(0), Some(PubrelReasonCode::Success));
    assert_eq!(
        PubrelReasonCode::from_u8(0x92),
        Some(PubrelReasonCode::PacketIdentifierNotFound)
    );
    assert_eq!(PubrelReasonCode::from_u8(0x10), None);
    assert_eq!(PubcompReasonCode::from_u8(0), Some(PubcompReasonCode::Success));
    assert_eq!(
        PubcompReasonCode::from_u8(0x92),
        Some(PubcompReasonCode::PacketIdentifierNotFound)
    );
    assert_eq!(PubcompReasonCode::from_u8(0x93), None);
    assert_eq!(ConnectReasonCode::from_u8(0x8A), Some(ConnectReasonCode::Banned));
    assert_eq!(ConnectReasonCode::from_u8(0x8B), None);
    assert_eq!(
        DisconnectReasonCode::from_u8(0x04),
        Some(DisconnectReasonCode::DisconnectWithWillMessage)
    );
    assert_eq!(DisconnectReasonCode::from_u8(0x01), None);
    assert_eq!(AuthReasonCode::from_u8(0x19), Some(AuthReasonCode::ReAuthenticate));
    assert_eq!(AuthReasonCode::from_u8(0x1A), None);
    assert_eq!(SubscribeReasonCode::from_u8(2), Some(SubscribeReasonCode::GrantedQoS2));
    assert_eq!(SubscribeReasonCode::from_u8(3), None);
    assert_eq!(
        UnsubscribeReasonCode::from_u8(0x11),
        Some(UnsubscribeReasonCode::NoSubscriptionExisted)
    );
    assert_eq!(UnsubscribeReasonCode::from_u8(0x10), None);
}

#[test]
fn v5_subscribe_with_retain_handling_three() {
    let bytes = [0x82, 9, 0, 10, 0, 0, 3, b'a', b'/', b'b', 0x30];
    assert_eq!(
        Packet::decode(&bytes),
        Err(ErrorV5::InvalidSubscriptionOptions(0x30))
    );
    assert_eq!(
        SubscriptionOptions::from_u8(0x30),
        Err(ErrorV5::InvalidSubscriptionOptions(0x30))
    );
}

#[test]
fn v5_subscription_options() {
    assert_eq!(
        SubscriptionOptions::from_u8(0x40),
        Err(ErrorV5::InvalidSubscriptionOptions(0x40))
    );
    assert_eq!(
        SubscriptionOptions::from_u8(0x80),
        Err(ErrorV5::InvalidSubscriptionOptions(0x80))
    );
    assert_eq!(
        SubscriptionOptions::from_u8(0x03),
        Err(ErrorV5::Common(Error::InvalidQos(3)))
    );
    assert_eq!(
        SubscriptionOptions::from_u8(0x2e),
        Ok(SubscriptionOptions {
            max_qos: QoS::Level2,
            no_local: true,
            retain_as_published: true,
            retain_handling: RetainHandling::DoNotSend,
        })
    );
    assert_eq!(
        SubscriptionOptions::from_u8(0x11),
        Ok(SubscriptionOptions {
            max_qos: QoS::Level1,
            no_local: false,
            retain_as_published: false,
            retain_handling: RetainHandling::SendAtSubscribeIfNotExist,
        })
    );
    for byte in 0..=255u8 {
        if let Ok(options) = SubscriptionOptions::from_u8(byte) {
            assert_eq!(options.to_u8(), byte);
        }
    }
    assert_eq!(SubscriptionOptions::new(QoS::Level1).to_u8(), 1);
}

#[test]
fn v5_subscribe_rules() {
    assert_eq!(
        Packet::decode(&[0x82, 3, 0, 10, 0]),
        Err(ErrorV5::Common(Error::EmptySubscription))
    );
    assert_eq!(
        Packet::decode(&[0xa2, 3, 0, 10, 0]),
        Err(ErrorV5::Common(Error::EmptySubscription))
    );
    assert_eq!(
        Packet::decode(&[0x82, 5, 0, 10, 2, 0x0b, 0]),
        Err(ErrorV5::ProtocolError(PropertyId::SubscriptionIdentifier))
    );
    assert_eq!(
        Packet::decode(&[0x90, 4, 0, 10, 0, 3]),
        Err(ErrorV5::InvalidReasonCode(PacketType::Suback, 3))
    );
    assert_eq!(
        Packet::decode(&[0xb0, 4, 0, 10, 0, 1]),
        Err(ErrorV5::InvalidReasonCode(PacketType::Unsuback, 1))
    );
    assert_eq!(
        Packet::decode(&[0x82, 8, 0, 10, 0, 0, 2, b'a', b'#', 0]),
        Err(ErrorV5::Common(Error::InvalidTopic))
    );
}

#[test]
fn v5_repeated_property_is_rejected() {
    let bytes = [
        0x30, 12, 0, 1, b'a', 8, 0x01, 1, 0x23, 0, 5, 0x01, 0, 0x02, b'x',
    ];
    assert_eq!(Packet::decode(&bytes[..14]), Err(ErrorV5::DuplicatedProperty(PropertyId::PayloadFormatIndicator)));
    let bytes = [0x30, 11, 0, 1, b'a', 6, 0x23, 0, 5, 0x23, 0, 6, b'x'];
    assert_eq!(Packet::decode(&bytes), Err(ErrorV5::DuplicatedProperty(PropertyId::TopicAlias)));
    let bytes = [0x20, 9, 0, 0, 6, 0x13, 0, 1, 0x13, 0, 2];
    assert_eq!(Packet::decode(&bytes), Err(ErrorV5::DuplicatedProperty(PropertyId::ServerKeepAlive)));
    let bytes = [0xe0, 12, 0, 10, 0x11, 0, 0, 0, 1, 0x11, 0, 0, 0, 2];
    assert_eq!(Packet::decode(&bytes), Err(ErrorV5::DuplicatedProperty(PropertyId::SessionExpiryInterval)));
    let mut offset = 0;
    assert_eq!(
        Properties::decode(&[4, 0x24, 1, 0x24, 0], &mut offset, PropertyScope::Connack),
        Err(ErrorV5::DuplicatedProperty(PropertyId::MaximumQoS))
    );
}

#[test]
fn v5_repeatable_properties_repeat() {
    let bytes = [
        0x30, 20, 0, 1, b'a', 16, 0x26, 0, 1, b'k', 0, 1, b'v', 0x26, 0, 1, b'k', 0, 1, b'w',
        0x0b, 5, 0x0b, 6,
    ];
    match Packet::decode(&bytes[..22]).unwrap().unwrap() {
        Packet::Publish(p) => {
            assert_eq!(p.properties.user_properties, vec![user("k", "v"), user("k", "w")]);
            assert_eq!(p.properties.subscription_id.unwrap().value(), 5);
        }
        other => panic!("not a publish packet: {:?}", other),
    }
}

#[test]
fn v5_property_rules() {
    let mut offset = 0;
    assert_eq!(
        Properties::decode(&[2, 0x7f, 0], &mut offset, PropertyScope::Publish),
        Err(ErrorV5::InvalidPropertyId(PacketType::Publish, 0x7f))
    );
    let mut offset = 0;
    assert_eq!(
        Properties::decode(&[2, 0x24, 0], &mut offset, PropertyScope::Will),
        Err(ErrorV5::InvalidPropertyId(PacketType::Connect, 0x24))
    );
    for id in [0x01u8, 0x17, 0x19, 0x24, 0x25, 0x28, 0x29, 0x2a] {
        let scope = match id {
            0x01 => PropertyScope::Publish,
            0x17 | 0x19 => PropertyScope::Connect,
            _ => PropertyScope::Connack,
        };
        let mut offset = 0;
        assert_eq!(
            Properties::decode(&[2, id, 2], &mut offset, scope),
            Err(ErrorV5::ProtocolError(PropertyId::from_u8(id).unwrap()))
        );
        let mut offset = 0;
        assert!(Properties::decode(&[2, id, 1], &mut offset, scope).is_ok());
        assert_eq!(offset, 3);
    }
    let mut offset = 0;
    assert_eq!(
        Properties::decode(&[3, 0x23, 0], &mut offset, PropertyScope::Publish),
        Err(ErrorV5::Common(Error::UnexpectedEof))
    );
    let mut offset = 0;
    assert_eq!(
        Properties::decode(&[2, 0x23, 0], &mut offset, PropertyScope::Publish),
        Err(ErrorV5::Common(Error::UnexpectedEof))
    );
    let mut offset = 0;
    assert_eq!(
        Properties::decode(&[4, 0x03, 0, 1, 0xff], &mut offset, PropertyScope::Publish),
        Err(ErrorV5::Common(Error::InvalidString))
    );
    let mut offset = 1;
    let p = Properties::decode(&[9, 0], &mut offset, PropertyScope::Auth).unwrap();
    assert!(p.is_empty());
    assert_eq!(offset, 2);
    assert_eq!(PropertyId::from_u8(0x26), Some(PropertyId::UserProperty));
    assert_eq!(PropertyId::from_u8(0x04), None);
    assert_eq!(PropertyId::TopicAlias.to_u8(), 0x23);
    assert_eq!(PropertyId::TopicAlias.kind(), PropertyKind::TwoByte);
    assert_eq!(PropertyId::UserProperty.kind(), PropertyKind::Pair);
    assert!(PropertyId::UserProperty.repeatable());
    assert!(PropertyId::SubscriptionIdentifier.repeatable());
    assert!(!PropertyId::TopicAlias.repeatable());
    assert!(PropertyId::MaximumQoS.is_flag());
    assert!(!PropertyId::TopicAlias.is_flag());
    assert!(PropertyScope::Publish.allows(PropertyId::TopicAlias));
    assert!(!PropertyScope::Will.allows(PropertyId::TopicAlias));
    assert!(PropertyScope::Will.allows(PropertyId::WillDelayInterval));
    assert!(!PropertyScope::Connect.allows(PropertyId::WillDelayInterval));
    assert_eq!(PropertyScope::Will.packet_type(), PacketType::Connect);
}

#[test]
fn v5_properties_block_bytes() {
    let p = props(vec![
        (PropertyId::TopicAlias, PropertyValue::TwoByte(0x0102)),
        (PropertyId::MessageExpiryInterval, PropertyValue::FourByte(1)),
        (PropertyId::SubscriptionIdentifier, PropertyValue::VarInt(128)),
        (
            PropertyId::CorrelationData,
            PropertyValue::Binary(Bytes::from_static(&[9])),
        ),
        (PropertyId::ContentType, PropertyValue::Text("t".to_owned())),
        (
            PropertyId::UserProperty,
            PropertyValue::Pair("k".to_owned(), "v".to_owned()),
        ),
        (PropertyId::PayloadFormatIndicator, PropertyValue::Byte(1)),
    ]);
    let expected = vec![
        28, 0x23, 1, 2, 0x02, 0, 0, 0, 1, 0x0b, 0x80, 0x01, 0x09, 0, 1, 9, 0x03, 0, 1, b't',
        0x26, 0, 1, b'k', 0, 1, b'v', 0x01, 1,
    ];
    let mut out = Vec::new();
    assert_eq!(p.encode(&mut out), Ok(()));
    assert_eq!(out, expected);
    assert_eq!(p.checked_len(), Some(28));
    assert_eq!(p.encode_len(), 29);
    let mut offset = 0;
    assert_eq!(
        Properties::decode(&expected, &mut offset, PropertyScope::Publish),
        Ok(p.clone())
    );
    assert_eq!(offset, 29);
    assert_eq!(p.find_u16(PropertyId::TopicAlias), Some(0x0102));
    assert_eq!(p.find_u32(PropertyId::MessageExpiryInterval), Some(1));
    assert_eq!(p.find_var_int(PropertyId::SubscriptionIdentifier), Some(128));
    assert_eq!(
        p.find_binary(PropertyId::CorrelationData),
        Some(Bytes::from_static(&[9]))
    );
    assert_eq!(p.find_text(PropertyId::ContentType), Some("t".to_owned()));
    assert_eq!(p.find_byte(PropertyId::PayloadFormatIndicator), Some(1));
    assert_eq!(p.find_byte(PropertyId::TopicAlias), None);
    assert_eq!(p.find_text(PropertyId::ReasonString), None);
    assert_eq!(p.find(PropertyId::ReasonString), None);
    assert_eq!(p.user_properties(), vec![user("k", "v")]);
    assert_eq!(
        p.items[0],
        Property {
            id: PropertyId::TopicAlias,
            value: PropertyValue::TwoByte(0x0102)
        }
    );
}

#[test]
fn v5_properties_without_an_encoding() {
    let too_long = props(vec![(
        PropertyId::ContentType,
        PropertyValue::Text("x".repeat(65536)),
    )]);
    assert_eq!(too_long.checked_len(), None);
    let mut out = vec![5u8];
    assert_eq!(
        too_long.encode(&mut out),
        Err(ErrorV5::Common(Error::PayloadTooLong))
    );
    assert_eq!(out, vec![5u8]);
    let big = props(vec![(
        PropertyId::SubscriptionIdentifier,
        PropertyValue::VarInt(268435456),
    )]);
    assert_eq!(big.checked_len(), None);
    let mut publish = Publish::new(QosPid::Level0, name("a"), Bytes::new());
    publish.properties.content_type = Some("x".repeat(65536));
    assert_eq!(
        Packet::Publish(publish).encode(),
        Err(ErrorV5::Common(Error::PayloadTooLong))
    );
    let mut connect = Connect::new("c".to_owned(), 1);
    connect.properties = too_long;
    assert!(!connect.fits());
    assert_eq!(
        connect.encode_len(),
        Err(ErrorV5::Common(Error::PayloadTooLong))
    );
}

#[test]
fn v5_publish_properties_in_order() {
    let p = full_publish_properties();
    let list = p.to_properties();
    let ids: Vec<PropertyId> = list.items.iter().map(|x| x.id).collect();
    assert_eq!(
        ids,
        vec![
            PropertyId::PayloadFormatIndicator,
            PropertyId::MessageExpiryInterval,
            PropertyId::TopicAlias,
            PropertyId::ResponseTopic,
            PropertyId::CorrelationData,
            PropertyId::SubscriptionIdentifier,
            PropertyId::ContentType,
            PropertyId::UserProperty,
            PropertyId::UserProperty,
        ]
    );
    assert_eq!(PublishProperties::from_properties(&list), Ok(p.clone()));
    let mut out = Vec::new();
    assert_eq!(p.encode(&mut out), Ok(()));
    assert_eq!(out.len(), p.encode_len());
    let mut offset = 0;
    assert_eq!(PublishProperties::decode(&out, &mut offset), Ok(p));
    assert_eq!(offset, out.len());
    assert_eq!(PublishProperties::default().encode_len(), 1);
    let bad = props(vec![(
        PropertyId::ResponseTopic,
        PropertyValue::Text("a/#".to_owned()),
    )]);
    assert_eq!(
        PublishProperties::from_properties(&bad),
        Err(ErrorV5::Common(Error::InvalidTopic))
    );
}

#[test]
fn v5_acknowledgement_properties() {
    let list = props(vec![
        (
            PropertyId::UserProperty,
            PropertyValue::Pair("a".to_owned(), "1".to_owned()),
        ),
        (PropertyId::ReasonString, PropertyValue::Text("why".to_owned())),
        (
            PropertyId::UserProperty,
            PropertyValue::Pair("b".to_owned(), "2".to_owned()),
        ),
    ]);
    let expected = PubackProperties {
        reason_string: Some("why".to_owned()),
        user_properties: vec![user("a", "1"), user("b", "2")],
    };
    assert_eq!(PubackProperties::from_properties(&list), expected);
    assert_eq!(
        PubrecProperties::from_properties(&list).reason_string,
        Some("why".to_owned())
    );
    assert_eq!(
        PubrelProperties::from_properties(&list).user_properties.len(),
        2
    );
    assert_eq!(
        PubcompProperties::from_properties(&Properties::new()),
        PubcompProperties::default()
    );
    let mut out = Vec::new();
    assert_eq!(expected.encode(&mut out), Ok(()));
    assert_eq!(
        out,
        vec![
            20, 0x1f, 0, 3, b'w', b'h', b'y', 0x26, 0, 1, b'a', 0, 1, b'1', 0x26, 0, 1, b'b', 0,
            1, b'2'
        ]
    );
    assert_eq!(expected.encode_len(), 21);
    let mut offset = 0;
    assert_eq!(PubackProperties::decode(&out, &mut offset), Ok(expected));
    let mut offset = 0;
    assert_eq!(
        PubrelProperties::decode(&[3, 0x23, 0, 1], &mut offset),
        Err(ErrorV5::InvalidPropertyId(PacketType::Pubrel, 0x23))
    );
}

#[test]
fn v5_publish_rules() {
    assert_eq!(
        Packet::decode(&[0x36, 0]),
        Err(ErrorV5::Common(Error::InvalidQos(3)))
    );
    assert_eq!(
        Packet::decode(&[0x30, 3, 0, 0, 0]),
        Err(ErrorV5::Common(Error::EmptyTopic))
    );
    match Packet::decode(&[0x30, 6, 0, 0, 3, 0x23, 0, 9]).unwrap().unwrap() {
        Packet::Publish(p) => {
            assert!(p.topic_name.is_empty());
            assert_eq!(p.properties.topic_alias, Some(9));
        }
        other => panic!("not a publish packet: {:?}", other),
    }
    match Packet::decode(&[0x30, 7, 0, 1, b't', 3, 0x23, 0, 9])
        .unwrap()
        .unwrap()
    {
        Packet::Publish(p) => {
            assert_eq!(p.topic_name.as_str(), "t");
            assert_eq!(p.properties.topic_alias, Some(9));
        }
        other => panic!("not a publish packet: {:?}", other),
    }
    assert_eq!(
        Packet::decode(&[0x30, 7, 0, 1, b't', 2, 0x01, 1, 0xff]),
        Err(ErrorV5::InvalidPayloadFormat)
    );
    match Packet::decode(&[0x30, 7, 0, 1, b't', 2, 0x01, 0, 0xff])
        .unwrap()
        .unwrap()
    {
        Packet::Publish(p) => {
            assert_eq!(p.payload.as_ref(), &[0xff]);
            assert_eq!(p.properties.payload_is_utf8, Some(false));
        }
        other => panic!("not a publish packet: {:?}", other),
    }
    match Packet::decode(&[0x30, 8, 0, 1, b't', 2, 0x01, 1, 0xc3, 0xa9])
        .unwrap()
        .unwrap()
    {
        Packet::Publish(p) => assert_eq!(p.payload.as_ref(), &[0xc3, 0xa9]),
        other => panic!("not a publish packet: {:?}", other),
    }
    assert_eq!(
        Packet::decode(&[0x30, 9, 0, 1, b't', 5, 0x08, 0, 2, b'a', b'+']),
        Err(ErrorV5::Common(Error::InvalidTopic))
    );
    assert_eq!(
        Packet::decode(&[0x32, 6, 0, 1, b't', 0, 0, 0]),
        Err(ErrorV5::Common(Error::InvalidPid))
    );
}

#[test]
fn v5_connect_rules() {
    let ok = [
        0x10, 13, 0, 4, b'M', b'Q', b'T', b'T', 5, 2, 0, 10, 0, 0, 0,
    ];
    assert_eq!(
        Packet::decode(&ok),
        Ok(Some(Packet::Connect(Connect::new(String::new(), 10))))
    );
    let v3 = [
        0x10, 13, 0, 4, b'M', b'Q', b'T', b'T', 4, 2, 0, 10, 0, 0, 0,
    ];
    assert_eq!(
        Packet::decode(&v3),
        Err(ErrorV5::Common(Error::UnexpectedProtocol(Protocol::V311)))
    );
    let reserved = [
        0x10, 13, 0, 4, b'M', b'Q', b'T', b'T', 5, 3, 0, 10, 0, 0, 0,
    ];
    assert_eq!(
        Packet::decode(&reserved),
        Err(ErrorV5::Common(Error::InvalidConnectFlags(3)))
    );
    let will_bits = [
        0x10, 13, 0, 4, b'M', b'Q', b'T', b'T', 5, 0x20, 0, 10, 0, 0, 0,
    ];
    assert_eq!(
        Packet::decode(&will_bits),
        Err(ErrorV5::Common(Error::InvalidConnectFlags(0x20)))
    );
    let unknown = [
        0x10, 13, 0, 4, b'M', b'Q', b'T', b'X', 5, 2, 0, 10, 0, 0, 0,
    ];
    assert_eq!(
        Packet::decode(&unknown),
        Err(ErrorV5::Common(Error::InvalidProtocol("MQTX".to_owned(), 5)))
    );
    let will_property = [
        0x10, 25, 0, 4, b'M', b'Q', b'T', b'T', 5, 0x06, 0, 10, 0, 0, 1, b'c', 5, 0x18, 0, 0, 0,
        9, 0, 1, b'w', 0, 0,
    ];
    match Packet::decode(&will_property).unwrap().unwrap() {
        Packet::Connect(c) => {
            assert_eq!(c.flags(), 0x06);
            let will = c.last_will.unwrap();
            assert_eq!(will.properties.find_u32(PropertyId::WillDelayInterval), Some(9));
            assert_eq!(will.topic_name.as_str(), "w");
            assert_eq!(will.payload.len(), 0);
            assert_eq!(c.client_id, "c");
        }
        other => panic!("not a connect packet: {:?}", other),
    }
    assert_eq!(
        Packet::decode(&[0x20, 3, 2, 0, 0]),
        Err(ErrorV5::Common(Error::InvalidConnackFlags(2)))
    );
    assert_eq!(
        Packet::decode(&[0x20, 3, 0, 1, 0]),
        Err(ErrorV5::InvalidReasonCode(PacketType::Connack, 1))
    );
}

#[test]
fn v5_disconnect_and_auth_forms() {
    assert_eq!(
        Packet::decode(&[0xe0, 0]),
        Ok(Some(Packet::Disconnect(Disconnect::new_normal())))
    );
    assert_eq!(
        Packet::decode(&[0xf0, 0]),
        Ok(Some(Packet::Auth(Auth::new_success())))
    );
    assert_eq!(
        Packet::Disconnect(Disconnect::new_normal()).encode().unwrap(),
        vec![0xe0, 0]
    );
    assert_eq!(Packet::Auth(Auth::new_success()).encode().unwrap(), vec![0xf0, 0]);
    assert_eq!(
        Packet::decode(&[0xe0, 1, 0x8e]),
        Ok(Some(Packet::Disconnect(Disconnect::new(
            DisconnectReasonCode::SessionTakenOver
        ))))
    );
    assert_eq!(
        Packet::decode(&[0xe0, 2, 0x8e, 0]),
        Ok(Some(Packet::Disconnect(Disconnect::new(
            DisconnectReasonCode::SessionTakenOver
        ))))
    );
    assert_eq!(
        Packet::decode(&[0xe0, 1, 0x01]),
        Err(ErrorV5::InvalidReasonCode(PacketType::Disconnect, 1))
    );
    assert_eq!(
        Packet::decode(&[0xf0, 1, 0x80]),
        Err(ErrorV5::InvalidReasonCode(PacketType::Auth, 0x80))
    );
    assert_eq!(
        Packet::decode(&[0xf0, 1, 0x18]),
        Ok(Some(Packet::Auth(Auth::new(
            AuthReasonCode::ContinueAuthentication
        ))))
    );
    assert_eq!(
        Header::new_with(0xe0, 0).unwrap().build_empty_packet(),
        Some(Packet::Disconnect(Disconnect::new_normal()))
    );
    assert_eq!(
        Header::new_with(0xf0, 0).unwrap().build_empty_packet(),
        Some(Packet::Auth(Auth::new_success()))
    );
    assert_eq!(Header::new_with(0xf0, 1).unwrap().build_empty_packet(), None);
    assert_eq!(Header::new_with(0xf1, 0), Err(Error::InvalidHeader));
    assert_eq!(Header::new_with(0x00, 0), Err(Error::InvalidHeader));
    assert_eq!(
        Packet::decode_with_len(&[0xc0, 1, 0]),
        Ok(Some((Packet::Pingreq, 2)))
    );
    assert_eq!(
        Header::new_with(0xd0, 7).unwrap().build_empty_packet(),
        Some(Packet::Pingresp)
    );
    assert_eq!(Header::new_with(0xe0, 1).unwrap().build_empty_packet(), None);
    let mut state = PollPacketState::new();
    assert_eq!(state.feed(&[0xc0, 5, 9]), Polled::Ready(Packet::Pingreq, 2));
    assert_eq!(
        Packet::decode(&[0x40, 5, 0, 10, 0, 0, 0]),
        Err(ErrorV5::Common(Error::InvalidRemainingLength))
    );
}

#[test]
fn v5_every_packet_survives_a_round_trip() {
    for packet in sample_packets() {
        let bytes = packet.encode().unwrap();
        assert_eq!(
            Packet::decode_with_len(&bytes),
            Ok(Some((packet.clone(), bytes.len()))),
            "{:?}",
            packet
        );
        assert_eq!(packet.encode_to_bytes().unwrap().as_ref(), &bytes[..]);
    }
}

#[test]
fn v5_encoded_length_agrees_with_total_len() {
    for packet in sample_packets() {
        let bytes = packet.encode().unwrap();
        let body_len = packet.encode_len().unwrap();
        assert_eq!(Ok(bytes.len()), total_len(body_len), "{:?}", packet);
        assert_eq!(packet.header(body_len as u32).typ, packet.get_type());
        match &packet {
            Packet::Publish(p) => assert_eq!(p.encode_len(), body_len),
            Packet::Puback(p) => assert_eq!(p.encode_len(), body_len),
            Packet::Pubrec(p) => assert_eq!(p.encode_len(), body_len),
            Packet::Pubrel(p) => assert_eq!(p.encode_len(), body_len),
            Packet::Pubcomp(p) => assert_eq!(p.encode_len(), body_len),
            Packet::Connect(p) => assert_eq!(p.encode_len(), Ok(body_len)),
            Packet::Connack(p) => assert_eq!(p.encode_len(), Ok(body_len)),
            Packet::Subscribe(p) => assert_eq!(p.encode_len(), Ok(body_len)),
            Packet::Suback(p) => assert_eq!(p.encode_len(), Ok(body_len)),
            Packet::Unsubscribe(p) => assert_eq!(p.encode_len(), Ok(body_len)),
            Packet::Unsuback(p) => assert_eq!(p.encode_len(), Ok(body_len)),
            Packet::Disconnect(p) => assert_eq!(p.encode_len(), Ok(body_len)),
            Packet::Auth(p) => assert_eq!(p.encode_len(), Ok(body_len)),
            Packet::Pingreq | Packet::Pingresp => assert_eq!(body_len, 0),
        }
    }
}

#[test]
fn v5_truncated_packets_ask_for_more() {
    for packet in sample_packets() {
        let bytes = packet.encode().unwrap();
        for cut in 0..bytes.len() {
            assert_eq!(Packet::decode(&bytes[..cut]), Ok(None), "{:?} at {}", packet, cut);
            let mut state = PollPacketState::new();
            assert_eq!(state.feed(&bytes[..cut]), Polled::NeedMore(cut));
        }
    }
}

#[test]
fn v5_streaming_gives_what_the_slice_gives() {
    for packet in sample_packets() {
        let bytes = packet.encode().unwrap();
        for size in [1usize, 2, 5, 13, 4096] {
            let mut state = PollPacketState::new();
            let mut taken = 0;
            let mut got = None;
            for chunk in bytes.chunks(size) {
                match state.feed(chunk) {
                    Polled::NeedMore(n) => {
                        assert_eq!(n, chunk.len());
                        taken += n;
                    }
                    Polled::Ready(p, n) => {
                        taken += n;
                        got = Some(p);
                    }
                    Polled::Error(e) => panic!("{:?}", e),
                }
            }
            assert_eq!(got, Some(packet.clone()));
            assert_eq!(taken, bytes.len());
        }
    }
}

#[test]
fn v5_streaming_failure_is_kept() {
    let mut state = PollPacketState::new();
    assert_eq!(state.feed(&[0x40, 3, 0]), Polled::NeedMore(3));
    assert_eq!(
        state.feed(&[10, 0x92, 0xc0]),
        Polled::Error(ErrorV5::InvalidReasonCode(PacketType::Puback, 0x92))
    );
    assert!(state.is_failed());
    assert_eq!(
        state.feed(&[0xc0, 0]),
        Polled::Error(ErrorV5::InvalidReasonCode(PacketType::Puback, 0x92))
    );
    state.reset();
    assert_eq!(state.feed(&[0xc0, 0, 0xd0]), Polled::Ready(Packet::Pingreq, 2));
    let mut state = PollPacketState::new();
    assert_eq!(
        state.feed(&[0x40, 1, 0]),
        Polled::Error(ErrorV5::Common(Error::InvalidRemainingLength))
    );
    let mut state = PollPacketState::with_max_size(4);
    assert_eq!(
        state.feed(&[0x40, 3]),
        Polled::Error(ErrorV5::Common(Error::InvalidRemainingLength))
    );
    let e = ErrorV5::Common(Error::UnexpectedEof);
    assert!(e.is_eof());
    assert_eq!(e.duplicate(), e);
    assert!(!ErrorV5::InvalidPayloadFormat.is_eof());
}

#[test]
fn v5_acknowledgement_block_with_reason_strings_and_user_properties() {
    let once = [
        0x1f, 0, 1, b'r', 0x26, 0, 1, b'a', 0, 1, b'1', 0x26, 0, 1, b'a', 0, 1, b'2',
    ];
    let mut block = vec![once.len() as u8];
    block.extend_from_slice(&once);
    let mut offset = 0;
    assert_eq!(
        PubackProperties::decode(&block, &mut offset),
        Ok(PubackProperties {
            reason_string: Some("r".to_owned()),
            user_properties: vec![user("a", "1"), user("a", "2")],
        })
    );
    assert_eq!(offset, block.len());
    let mut twice = vec![(once.len() + 4) as u8];
    twice.extend_from_slice(&once);
    twice.extend_from_slice(&[0x1f, 0, 1, b's']);
    let mut offset = 0;
    assert_eq!(
        PubackProperties::decode(&twice, &mut offset),
        Err(ErrorV5::DuplicatedProperty(PropertyId::ReasonString))
    );
}
