use bytes::Bytes;

use mqtt_proto::v3::{
    Connack, Connect, ConnectReturnCode, Header, LastWill, Packet, PacketType, PollPacketState,
    Publish, Suback, Subscribe, SubscribeReturnCode, Unsubscribe,
};
use mqtt_proto::{total_len, Error, Pid, Polled, Protocol, QoS, QosPid, TopicFilter, TopicName};

const CONNECT: [u8; 41] = [
    0x10, 0x27, 0x00, 0x04, 0x4D, 0x51, 0x54, 0x54, 0x04, 0xCE, 0x00, 0x0A, 0x00, 0x04, 0x74,
    0x65, 0x73, 0x74, 0x00, 0x02, 0x2F, 0x61, 0x00, 0x07, 0x6F, 0x66, 0x66, 0x6C, 0x69, 0x6E,
    0x65, 0x00, 0x04, 0x72, 0x75, 0x73, 0x74, 0x00, 0x02, 0x6D, 0x71,
];

fn connect_packet() -> Connect {
    Connect {
        protocol: Protocol::V311,
        clean_session: true,
        keep_alive: 10,
        client_id: "test".to_owned(),
        last_will: Some(LastWill {
            qos: QoS::Level1,
            retain: false,
            topic_name: TopicName::try_from("/a".to_owned()).unwrap(),
            message: Bytes::from_static(b"offline"),
        }),
        username: Some("rust".to_owned()),
        password: Some(Bytes::from_static(b"mq")),
    }
}

fn pid(n: u16) -> Pid {
    Pid::try_from(n).unwrap()
}

fn filter(s: &str) -> TopicFilter {
    TopicFilter::try_from(s.to_owned()).unwrap()
}

fn sample_packets() -> Vec<Packet> {
    vec![
        Packet::Connect(connect_packet()),
        Packet::Connect(Connect::new("c".to_owned(), 0)),
        Packet::Connect(Connect {
            protocol: Protocol::V310,
            clean_session: false,
            keep_alive: 65535,
            client_id: String::new(),
            last_will: Some(LastWill {
                qos: QoS::Level2,
                retain: true,
                topic_name: TopicName::try_from("w".to_owned()).unwrap(),
                message: Bytes::new(),
            }),
            username: None,
            password: Some(Bytes::from_static(&[0, 255])),
        }),
        Packet::Connack(Connack::new(true, ConnectReturnCode::NotAuthorized)),
        Packet::Connack(Connack::new(false, ConnectReturnCode::Accepted)),
        Packet::Publish(Publish::new(
            QosPid::Level0,
            TopicName::try_from("a/b".to_owned()).unwrap(),
            Bytes::from_static(b"hello"),
        )),
        Packet::Publish(Publish {
            dup: true,
            retain: true,
            qos_pid: QosPid::Level2(pid(513)),
            topic_name: TopicName::try_from("t".to_owned()).unwrap(),
            payload: Bytes::from(vec![7u8; 300]),
        }),
        Packet::Publish(Publish {
            dup: false,
            retain: true,
            qos_pid: QosPid::Level1(pid(1)),
            topic_name: TopicName::try_from("$SYS/x".to_owned()).unwrap(),
            payload: Bytes::new(),
        }),
        Packet::Puback(pid(10)),
        Packet::Pubrec(pid(11)),
        Packet::Pubrel(pid(12)),
        Packet::Pubcomp(pid(65535)),
        Packet::Subscribe(Subscribe::new(
            pid(3),
            vec![(filter("a/+"), QoS::Level1), (filter("#"), QoS::Level2)],
        )),
        Packet::Suback(Suback::new(
            pid(3),
            vec![
                SubscribeReturnCode::MaxLevel0,
                SubscribeReturnCode::MaxLevel1,
                SubscribeReturnCode::MaxLevel2,
                SubscribeReturnCode::Failure,
            ],
        )),
        Packet::Suback(Suback::new(pid(4), vec![])),
        Packet::Unsubscribe(Unsubscribe::new(pid(5), vec![filter("a"), filter("b/#")])),
        Packet::Unsuback(pid(6)),
        Packet::Pingreq,
        Packet::Pingresp,
        Packet::Disconnect,
    ]
}

#[test]
fn connect_with_will_and_credentials() {
    match Packet::decode(&CONNECT).unwrap().unwrap() {
        Packet::Connect(c) => {
            assert_eq!(c.protocol, Protocol::V311);
            assert!(c.clean_session);
            assert_eq!(c.keep_alive, 10);
            assert_eq!(c.client_id, "test");
            let will = c.last_will.unwrap();
            assert_eq!(will.topic_name.as_str(), "/a");
            assert_eq!(will.message.as_ref(), b"offline");
            assert_eq!(will.qos, QoS::Level1);
            assert!(!will.retain);
            assert_eq!(c.username, Some("rust".to_owned()));
            assert_eq!(c.password, Some(Bytes::from_static(b"mq")));
        }
        other => panic!("not a connect packet: {:?}", other),
    }
    assert_eq!(
        Packet::decode_with_len(&CONNECT),
        Ok(Some((Packet::Connect(connect_packet()), 41)))
    );
}

#[test]
fn connect_with_reserved_flag() {
    let mut bytes = CONNECT;
    bytes[9] = 0xCF;
    assert_eq!(
        Packet::decode(&bytes),
        Err(Error::InvalidConnectFlags(0xCF))
    );
}

#[test]
fn connect_with_will_bits_but_no_will() {
    for flags in [0b0000_1000u8, 0b0001_0000, 0b0010_0000, 0b0011_1010] {
        let bytes = [
            0x10, 12, 0, 4, b'M', b'Q', b'T', b'T', 4, flags, 0, 10, 0, 0,
        ];
        assert_eq!(
            Packet::decode(&bytes),
            Err(Error::InvalidConnectFlags(flags)),
            "{:08b}",
            flags
        );
    }
}

#[test]
fn connect_with_will_quality_three() {
    let bytes = [
        0x10, 19, 0, 4, b'M', b'Q', b'T', b'T', 4, 0b0001_1100, 0, 10, 0, 0, 0, 1, b'w', 0, 2,
        b'h', b'i',
    ];
    assert_eq!(Packet::decode(&bytes), Err(Error::InvalidQos(3)));
}

#[test]
fn connect_with_bad_will_topic() {
    let bytes = [
        0x10, 17, 0, 4, b'M', b'Q', b'T', b'T', 4, 0b0000_0100, 0, 10, 0, 0, 0, 1, b'#', 0, 0,
    ];
    assert_eq!(Packet::decode(&bytes), Err(Error::InvalidTopic));
    let bytes = [
        0x10, 16, 0, 4, b'M', b'Q', b'T', b'T', 4, 0b0000_0100, 0, 10, 0, 0, 0, 0, 0, 0,
    ];
    assert_eq!(Packet::decode(&bytes), Err(Error::EmptyTopic));
}

#[test]
fn connect_of_another_version() {
    let bytes = [0x10, 12, 0, 4, b'M', b'Q', b'T', b'T', 5, 2, 0, 10, 0, 0];
    assert_eq!(
        Packet::decode(&bytes),
        Err(Error::UnexpectedProtocol(Protocol::V50))
    );
    let mut offset = 0;
    assert_eq!(
        Connect::decode_buffer_with_protocol(&[2, 0, 10, 0, 0], &mut offset, Protocol::V50),
        Err(Error::UnexpectedProtocol(Protocol::V50))
    );
    assert_eq!(offset, 0);
    let mut offset = 3;
    assert_eq!(
        Connect::decode_buffer_with_protocol(&[2, 0, 10, 0, 0], &mut offset, Protocol::V50),
        Err(Error::UnexpectedProtocol(Protocol::V50))
    );
    assert_eq!(offset, 3);
    let mut offset = 0;
    let c = Connect::decode_buffer_with_protocol(&[2, 0, 10, 0, 1, b'x'], &mut offset, Protocol::V310)
        .unwrap();
    assert_eq!(offset, 6);
    assert_eq!(c.protocol, Protocol::V310);
    assert_eq!(c.client_id, "x");
    assert!(c.clean_session);
}

#[test]
fn connect_is_encoded_bit_for_bit() {
    let packet = Packet::Connect(connect_packet());
    assert_eq!(packet.encode().unwrap(), CONNECT.to_vec());
    assert_eq!(packet.encode_to_bytes().unwrap().as_ref(), &CONNECT[..]);
    assert_eq!(connect_packet().encode_len(), 39);
    assert_eq!(connect_packet().flags(), 0xCE);
}

#[test]
fn connect_with_a_field_too_long() {
    let mut c = Connect::new("x".repeat(65536), 1);
    assert!(!c.fits());
    let mut out = vec![1u8, 2];
    assert_eq!(c.encode(&mut out), Err(Error::PayloadTooLong));
    assert_eq!(out, vec![1u8, 2]);
    assert_eq!(Packet::Connect(c.clone()).encode(), Err(Error::PayloadTooLong));
    c.client_id = "x".repeat(65535);
    assert!(c.fits());
    c.password = Some(Bytes::from(vec![0u8; 65536]));
    assert!(!c.fits());
}

#[test]
fn connack_rules() {
    assert_eq!(
        Packet::decode(&[0x20, 2, 2, 0]),
        Err(Error::InvalidConnackFlags(2))
    );
    assert_eq!(
        Packet::decode(&[0x20, 2, 0, 6]),
        Err(Error::InvalidConnectReturnCode(6))
    );
    assert_eq!(
        Packet::decode(&[0x20, 2, 1, 5]),
        Ok(Some(Packet::Connack(Connack::new(
            true,
            ConnectReturnCode::NotAuthorized
        ))))
    );
    for byte in 0..=5u8 {
        assert_eq!(ConnectReturnCode::from_u8(byte).unwrap().to_u8(), byte);
    }
    assert_eq!(
        ConnectReturnCode::from_u8(6),
        Err(Error::InvalidConnectReturnCode(6))
    );
    let mut offset = 0;
    assert_eq!(
        Connack::decode(&[1, 0, 9], &mut offset),
        Ok(Connack::new(true, ConnectReturnCode::Accepted))
    );
    assert_eq!(offset, 2);
}

#[test]
fn publish_with_quality_three() {
    assert_eq!(Header::decode(&[0x36, 0]), Err(Error::InvalidQos(3)));
    assert_eq!(
        Packet::decode(&[0x36, 5, 0, 1, b'a', 0, 1]),
        Err(Error::InvalidQos(3))
    );
    assert_eq!(Header::new_with(0x3f, 0), Err(Error::InvalidQos(3)));
}

#[test]
fn publish_rules() {
    assert_eq!(
        Packet::decode(&[0x32, 5, 0, 1, b'a', 0, 0]),
        Err(Error::InvalidPid)
    );
    assert_eq!(
        Packet::decode(&[0x30, 5, 0, 3, b'a', b'/', b'+']),
        Err(Error::InvalidTopic)
    );
    assert_eq!(Packet::decode(&[0x30, 2, 0, 0]), Err(Error::EmptyTopic));
    assert_eq!(
        Packet::decode(&[0x30, 3, 0, 1, b'a']),
        Ok(Some(Packet::Publish(Publish::new(
            QosPid::Level0,
            TopicName::try_from("a".to_owned()).unwrap(),
            Bytes::new()
        ))))
    );
}

#[test]
fn acknowledgement_rules() {
    assert_eq!(Packet::decode(&[0x40, 2, 0, 0]), Err(Error::InvalidPid));
    assert_eq!(
        Packet::decode(&[0x40, 3, 0, 1, 0]),
        Err(Error::InvalidRemainingLength)
    );
    assert_eq!(Packet::decode(&[0x40, 1, 0]), Ok(None));
    assert_eq!(
        Packet::decode_with_len(&[0xc0, 1, 0]),
        Ok(Some((Packet::Pingreq, 2)))
    );
}

#[test]
fn subscribe_rules() {
    assert_eq!(
        Packet::decode(&[0x82, 2, 0, 10]),
        Err(Error::EmptySubscription)
    );
    assert_eq!(
        Packet::decode(&[0x82, 6, 0, 10, 0, 1, b'a', 3]),
        Err(Error::InvalidQos(3))
    );
    assert_eq!(
        Packet::decode(&[0x82, 7, 0, 10, 0, 2, b'a', b'+', 0]),
        Err(Error::InvalidTopic)
    );
    assert_eq!(Packet::decode(&[0x82, 2, 0, 0]), Err(Error::InvalidPid));
    let body = [0, 10, 0, 1, b'a', 1, 0, 1, b'b', 2];
    let mut offset = 0;
    assert_eq!(
        Subscribe::decode(&body, &mut offset, Header::new_with(0x82, 10).unwrap()),
        Ok(Subscribe::new(
            pid(10),
            vec![(filter("a"), QoS::Level1), (filter("b"), QoS::Level2)]
        ))
    );
    assert_eq!(offset, 10);
    let mut offset = 0;
    assert_eq!(
        Subscribe::decode(&body, &mut offset, Header::new_with(0x82, 9).unwrap()),
        Err(Error::InvalidRemainingLength)
    );
    let mut offset = 0;
    assert_eq!(
        Subscribe::decode(&body, &mut offset, Header::new_with(0x82, 1).unwrap()),
        Err(Error::InvalidRemainingLength)
    );
}

#[test]
fn suback_rules() {
    assert_eq!(
        Packet::decode(&[0x90, 3, 0, 10, 3]),
        Err(Error::InvalidQos(3))
    );
    assert_eq!(
        Packet::decode(&[0x90, 4, 0, 10, 0x80, 1]),
        Ok(Some(Packet::Suback(Suback::new(
            pid(10),
            vec![SubscribeReturnCode::Failure, SubscribeReturnCode::MaxLevel1]
        ))))
    );
    assert_eq!(SubscribeReturnCode::from_u8(0x80), Ok(SubscribeReturnCode::Failure));
    assert_eq!(SubscribeReturnCode::from_u8(0x81), Err(Error::InvalidQos(0x81)));
    assert_eq!(SubscribeReturnCode::Failure.to_u8(), 0x80);
    assert_eq!(
        SubscribeReturnCode::from_qos(QoS::Level1),
        SubscribeReturnCode::MaxLevel1
    );
    assert_eq!(
        SubscribeReturnCode::from(QoS::Level2),
        SubscribeReturnCode::MaxLevel2
    );
    assert_eq!(
        SubscribeReturnCode::from(QoS::Level0),
        SubscribeReturnCode::MaxLevel0
    );
}

#[test]
fn unsubscribe_rules() {
    assert_eq!(
        Packet::decode(&[0xa2, 2, 0, 10]),
        Err(Error::EmptySubscription)
    );
    assert_eq!(
        Packet::decode(&[0xa2, 4, 0, 10, 0, 0]),
        Err(Error::EmptyTopic)
    );
    let body = [0, 10, 0, 1, b'a', 0, 1, b'b'];
    let mut offset = 0;
    assert_eq!(
        Unsubscribe::decode(&body, &mut offset, Header::new_with(0xa2, 7).unwrap()),
        Err(Error::InvalidRemainingLength)
    );
}

#[test]
fn header_rules() {
    assert_eq!(Header::decode(&[0x00, 0]), Err(Error::InvalidHeader));
    assert_eq!(Header::decode(&[0xf0, 0]), Err(Error::InvalidHeader));
    assert_eq!(Header::decode(&[0x62, 0]).unwrap().typ, PacketType::Pubrel);
    for flags in 0..16u8 {
        if flags != 2 {
            assert_eq!(Header::decode(&[0x60 | flags, 0]), Err(Error::InvalidHeader));
            assert_eq!(Header::decode(&[0x80 | flags, 0]), Err(Error::InvalidHeader));
            assert_eq!(Header::decode(&[0xa0 | flags, 0]), Err(Error::InvalidHeader));
        }
        if flags != 0 {
            for typ in [1u8, 2, 4, 5, 7, 9, 11, 12, 13, 14] {
                assert_eq!(
                    Header::decode(&[(typ << 4) | flags, 0]),
                    Err(Error::InvalidHeader)
                );
            }
        }
    }
    assert_eq!(Header::decode(&[]), Err(Error::UnexpectedEof));
    assert_eq!(Header::decode(&[0x10]), Err(Error::UnexpectedEof));
    let h = Header::new(PacketType::Publish, true, QoS::Level1, true, 321);
    let mut out = Vec::new();
    assert_eq!(h.encode(&mut out), Ok(()));
    assert_eq!(out, vec![0x3b, 0xc1, 0x02]);
    assert_eq!(Header::decode(&out), Ok(h));
    assert_eq!(h.remaining_len(), 321);
    assert_eq!(h.first_byte(), 0x3b);
    let too_long = Header::new(PacketType::Publish, false, QoS::Level0, false, 268435456);
    assert_eq!(too_long.encode(&mut out), Err(Error::InvalidVarByteInt));
    assert_eq!(PacketType::from_code(0), None);
    assert_eq!(PacketType::from_code(15), None);
    assert_eq!(PacketType::from_code(8), Some(PacketType::Subscribe));
    assert_eq!(PacketType::Subscribe.code(), 8);
    assert!(Header::is_eof_error(&Error::UnexpectedEof));
    assert!(!Header::is_eof_error(&Error::InvalidHeader));
}

#[test]
fn every_packet_survives_a_round_trip() {
    for packet in sample_packets() {
        let bytes = packet.encode().unwrap();
        assert_eq!(
            Packet::decode_with_len(&bytes),
            Ok(Some((packet.clone(), bytes.len()))),
            "{:?}",
            packet
        );
        let mut longer = bytes.clone();
        longer.extend_from_slice(&[0xc0, 0]);
        assert_eq!(
            Packet::decode_with_len(&longer),
            Ok(Some((packet, bytes.len())))
        );
    }
}

#[test]
fn encoded_length_agrees_with_total_len() {
    for packet in sample_packets() {
        let bytes = packet.encode().unwrap();
        assert_eq!(Ok(bytes.len()), total_len(packet.encode_len()), "{:?}", packet);
        let header = packet.header(packet.encode_len() as u32);
        assert_eq!(header.typ, packet.get_type());
        let mut body = Vec::new();
        packet.encode_body(&mut body).unwrap();
        assert_eq!(body.len(), packet.encode_len());
    }
}

#[test]
fn truncated_packets_ask_for_more() {
    for packet in sample_packets() {
        let bytes = packet.encode().unwrap();
        for cut in 0..bytes.len() {
            assert_eq!(Packet::decode(&bytes[..cut]), Ok(None), "{:?} at {}", packet, cut);
            let mut state = PollPacketState::new();
            assert_eq!(state.feed(&bytes[..cut]), Polled::NeedMore(cut));
            assert!(!state.is_failed());
        }
    }
}

#[test]
fn streaming_gives_what_the_slice_gives() {
    for packet in sample_packets() {
        let bytes = packet.encode().unwrap();
        for size in [1usize, 2, 3, 7, 64, 1000] {
            let mut state = PollPacketState::new();
            let mut taken = 0;
            let mut got = None;
            for chunk in bytes.chunks(size) {
                match state.feed(chunk) {
                    Polled::NeedMore(n) => {
                        assert_eq!(n, chunk.len());
                        taken += n;
                    }
                    Polled::Ready(p, n) => {
                        taken += n;
                        got = Some(p);
                    }
                    Polled::Error(e) => panic!("{:?}", e),
                }
            }
            assert_eq!(got, Some(packet.clone()));
            assert_eq!(taken, bytes.len());
        }
    }
}

#[test]
fn streaming_split_of_connect() {
    let mut state = PollPacketState::new();
    assert_eq!(state.feed(&CONNECT[0..1]), Polled::NeedMore(1));
    assert_eq!(state.feed(&CONNECT[1..2]), Polled::NeedMore(1));
    assert_eq!(state.feed(&CONNECT[2..12]), Polled::NeedMore(10));
    assert_eq!(
        state.feed(&CONNECT[12..41]),
        Polled::Ready(Packet::Connect(connect_packet()), 29)
    );
    assert_eq!(1 + 1 + 10 + 29, CONNECT.len());
    assert_eq!(state.feed(&[]), Polled::NeedMore(0));
}

#[test]
fn streaming_leaves_the_next_packet() {
    let mut bytes = CONNECT.to_vec();
    bytes.extend_from_slice(&[0xc0, 0, 0xd0]);
    let mut state = PollPacketState::new();
    assert_eq!(
        state.feed(&bytes),
        Polled::Ready(Packet::Connect(connect_packet()), 41)
    );
    assert_eq!(state.feed(&bytes[41..]), Polled::Ready(Packet::Pingreq, 2));
    assert_eq!(state.feed(&bytes[43..]), Polled::NeedMore(1));
    assert_eq!(state.feed(&[0]), Polled::Ready(Packet::Pingresp, 1));
}

#[test]
fn streaming_failure_is_kept() {
    let mut state = PollPacketState::new();
    assert_eq!(
        state.feed(&[0x00, 0]),
        Polled::Error(Error::InvalidHeader)
    );
    assert!(state.is_failed());
    assert_eq!(
        state.feed(&[0xc0, 0]),
        Polled::Error(Error::InvalidHeader)
    );
    state.reset();
    assert!(!state.is_failed());
    assert_eq!(state.feed(&[0xc0, 0]), Polled::Ready(Packet::Pingreq, 2));
    let mut state = PollPacketState::new();
    assert_eq!(state.feed(&[0x10, 0x80]), Polled::NeedMore(2));
    assert_eq!(state.feed(&[0x80, 0x80]), Polled::NeedMore(2));
    assert_eq!(
        state.feed(&[0x80, 0x01]),
        Polled::Error(Error::InvalidVarByteInt)
    );
    let mut state = PollPacketState::new();
    assert_eq!(
        state.feed(&[0x20, 2, 7, 0]),
        Polled::Error(Error::InvalidConnackFlags(7))
    );
}

#[test]
fn streaming_ceiling_on_packet_size() {
    let mut state = PollPacketState::with_max_size(10);
    assert_eq!(
        state.feed(&[0x30, 9]),
        Polled::Error(Error::InvalidRemainingLength)
    );
    let mut state = PollPacketState::with_max_size(10);
    assert_eq!(state.feed(&[0x30, 8, 0, 1]), Polled::NeedMore(4));
    let mut state = PollPacketState::new();
    assert_eq!(
        state.feed(&[0x30, 0xfe, 0xff, 0xff, 0x7f]),
        Polled::Error(Error::InvalidRemainingLength)
    );
    let mut state = PollPacketState::new();
    assert_eq!(
        state.feed(&[0x30, 0xfb, 0xff, 0xff, 0x7f]),
        Polled::NeedMore(5)
    );
    let mut state = PollPacketState::with_max_size(usize::MAX);
    assert_eq!(
        state.feed(&[0x30, 0xff, 0xff, 0xff, 0x7f]),
        Polled::NeedMore(5)
    );
}

#[test]
fn empty_packets_from_the_header_alone() {
    assert_eq!(
        Header::new_with(0xc0, 0).unwrap().build_empty_packet(),
        Some(Packet::Pingreq)
    );
    assert_eq!(
        Header::new_with(0xd0, 0).unwrap().build_empty_packet(),
        Some(Packet::Pingresp)
    );
    assert_eq!(
        Header::new_with(0xe0, 0).unwrap().build_empty_packet(),
        Some(Packet::Disconnect)
    );
    assert_eq!(
        Header::new_with(0xe0, 1).unwrap().build_empty_packet(),
        Some(Packet::Disconnect)
    );
    assert_eq!(
        Header::new_with(0xc0, 300).unwrap().build_empty_packet(),
        Some(Packet::Pingreq)
    );
    assert_eq!(Header::new_with(0x40, 0).unwrap().build_empty_packet(), None);
    let mut state = PollPacketState::new();
    assert_eq!(state.feed(&[0xd0, 3, 1, 2, 3]), Polled::Ready(Packet::Pingresp, 2));
    assert_eq!(
        Packet::decode_with_len(&[0xe0, 0x80, 0x01]),
        Ok(Some((Packet::Disconnect, 3)))
    );
    assert!(!PacketType::Pingreq.has_body());
    assert!(!PacketType::Disconnect.has_body());
    assert!(PacketType::Puback.has_body());
    assert_eq!(
        Header::new_with(0x40, 2).unwrap().decode_buffer(&[0, 9]),
        Ok(Packet::Puback(pid(9)))
    );
    assert_eq!(
        Header::new_with(0x40, 2).unwrap().decode_buffer(&[0]),
        Err(Error::UnexpectedEof)
    );
}

#[test]
fn errors_are_copied_whole() {
    let e = Error::InvalidProtocol("MQTT".to_owned(), 9);
    assert_eq!(e.duplicate(), e);
    assert!(Error::UnexpectedEof.is_eof());
    assert!(!e.is_eof());
}

#[test]
fn last_will_alone() {
    let will = LastWill::new(
        QoS::Level1,
        TopicName::try_from("/a".to_owned()).unwrap(),
        Bytes::from_static(b"offline"),
    );
    assert!(!will.retain);
    assert_eq!(will.encode_len(), 13);
    let mut out = Vec::new();
    assert_eq!(will.encode(&mut out), Ok(()));
    assert_eq!(out, CONNECT[18..31].to_vec());
    let long = LastWill::new(
        QoS::Level0,
        TopicName::try_from("a".to_owned()).unwrap(),
        Bytes::from(vec![0u8; 65536]),
    );
    assert_eq!(long.encode(&mut out), Err(Error::PayloadTooLong));
}

#[test]
fn connect_body_cut_short_is_eof() {
    let body = &CONNECT[2..];
    for cut in 0..body.len() {
        let mut offset = 0;
        assert_eq!(
            Connect::decode(&body[..cut], &mut offset),
            Err(Error::UnexpectedEof),
            "at {}",
            cut
        );
    }
    let mut offset = 0;
    assert_eq!(Connect::decode(body, &mut offset), Ok(connect_packet()));
    assert_eq!(offset, 39);
}
