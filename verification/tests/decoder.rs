use bytes::Bytes;

use mqtt_proto::v3::{
    Connack, Connect, ConnectReturnCode, Header, LastWill, Packet, PollPacketState,
    Suback, Subscribe, SubscribeReturnCode, Unsubscribe,
};
use mqtt_proto::v3::PacketType::{
    Connack as TConnack, Connect as TConnect, Disconnect, Pingreq, Pingresp, Puback, Pubcomp,
    Publish, Pubrec, Pubrel, Suback as TSuback, Subscribe as TSubscribe, Unsuback,
    Unsubscribe as TUnsubscribe,
};
use mqtt_proto::QoS::{Level0, Level1, Level2};
use mqtt_proto::{total_len, Error, Pid, Polled, Protocol, QoS, QosPid, TopicFilter, TopicName};

fn poll_whole(data: &[u8]) -> Polled<Packet, Error> {
    let mut state = PollPacketState::new();
    state.feed(data)
}

fn poll_packet(data: &[u8]) -> Packet {
    match poll_whole(data) {
        Polled::Ready(packet, _) => packet,
        other => panic!("not ready: {:?}", other),
    }
}

fn poll_error(data: &[u8]) -> Error {
    match poll_whole(data) {
        Polled::Error(e) => e,
        other => panic!("no error: {:?}", other),
    }
}

#[test]
fn test_header_firstbyte() {
    let valid = vec![
        (0b0001_0000, Header::new(TConnect, false, Level0, false, 0)),
        (0b0010_0000, Header::new(TConnack, false, Level0, false, 0)),
        (0b0011_0000, Header::new(Publish, false, Level0, false, 0)),
        (0b0011_0001, Header::new(Publish, false, Level0, true, 0)),
        (0b0011_0010, Header::new(Publish, false, Level1, false, 0)),
        (0b0011_0011, Header::new(Publish, false, Level1, true, 0)),
        (0b0011_0100, Header::new(Publish, false, Level2, false, 0)),
        (0b0011_0101, Header::new(Publish, false, Level2, true, 0)),
        (0b0011_1000, Header::new(Publish, true, Level0, false, 0)),
        (0b0011_1001, Header::new(Publish, true, Level0, true, 0)),
        (0b0011_1010, Header::new(Publish, true, Level1, false, 0)),
        (0b0011_1011, Header::new(Publish, true, Level1, true, 0)),
        (0b0011_1100, Header::new(Publish, true, Level2, false, 0)),
        (0b0011_1101, Header::new(Publish, true, Level2, true, 0)),
        (0b0100_0000, Header::new(Puback, false, Level0, false, 0)),
        (0b0101_0000, Header::new(Pubrec, false, Level0, false, 0)),
        (0b0110_0010, Header::new(Pubrel, false, Level0, false, 0)),
        (0b0111_0000, Header::new(Pubcomp, false, Level0, false, 0)),
        (0b1000_0010, Header::new(TSubscribe, false, Level0, false, 0)),
        (0b1001_0000, Header::new(TSuback, false, Level0, false, 0)),
        (
            0b1010_0010,
            Header::new(TUnsubscribe, false, Level0, false, 0),
        ),
        (0b1011_0000, Header::new(Unsuback, false, Level0, false, 0)),
        (0b1100_0000, Header::new(Pingreq, false, Level0, false, 0)),
        (0b1101_0000, Header::new(Pingresp, false, Level0, false, 0)),
        (
            0b1110_0000,
            Header::new(Disconnect, false, Level0, false, 0),
        ),
    ];
    for n in 0..=255 {
        let res = match valid.iter().find(|(byte, _)| *byte == n) {
            Some((_, header)) => Ok(*header),
            None if ((n & 0b110) == 0b110) && (n >> 4 == 3) => Err(Error::InvalidQos(3)),
            None => Err(Error::InvalidHeader),
        };
        let buf: &[u8] = &[n, 0];
        assert_eq!(res, Header::decode(buf), "{:08b}", n);
    }
}

#[test]
fn test_header_len() {
    for (bytes, res) in vec![
        (
            vec![1 << 4, 0],
            Ok(Header::new(TConnect, false, Level0, false, 0)),
        ),
        (
            vec![1 << 4, 127],
            Ok(Header::new(TConnect, false, Level0, false, 127)),
        ),
        (
            vec![1 << 4, 0x80, 0],
            Ok(Header::new(TConnect, false, Level0, false, 0)),
        ),
        (
            vec![1 << 4, 0x80, 1],
            Ok(Header::new(TConnect, false, Level0, false, 128)),
        ),
        (
            vec![1 << 4, 0x80 + 16, 78],
            Ok(Header::new(TConnect, false, Level0, false, 10000)),
        ),
        (
            vec![1 << 4, 0x80, 0x80, 0x80, 0x80],
            Err(Error::InvalidVarByteInt),
        ),
    ] {
        let slice_buf = bytes.as_slice();
        assert_eq!(res, Header::decode(slice_buf));
    }
}

#[test]
fn test_non_utf8_string() {
    let data: &[u8] = &[
        0b00110000, 10, // type=Publish, remaining_len=10
        0x00, 0x03, b'a', b'/', 0xc0_u8, // Topic with Invalid utf8
        b'h', b'e', b'l', b'l', b'o', // payload
    ];
    assert!(matches!(
        Packet::decode(data).unwrap_err(),
        Error::InvalidString
    ));
    assert_eq!(Packet::decode(data).unwrap_err(), poll_error(data));
}

#[test]
fn test_inner_length_too_long() {
    let data: &[u8] = &[
        0b00010000, 20, // Connect packet, remaining_len=20
        0x00, 0x04, b'M', b'Q', b'T', b'T', 0x04, 0b01000000, // +password
        0x00, 0x0a, // keepalive 10 sec
        0x00, 0x04, b't', b'e', b's', b't', // client_id
        0x00, 0x03, b'm', b'q', // password with invalid length
    ];
    assert_eq!(Ok(None), Packet::decode(data));
    assert_eq!(poll_error(data), Error::InvalidRemainingLength);
}

#[test]
fn test_decode_half_connect() {
    let data: &[u8] = &[
        0b00010000, 39, 0x00, 0x04, b'M', b'Q', b'T', b'T', 0x04,
        0b11001110, // +username, +password, -will retain, will qos=1, +last_will, +clean_session
        0x00, 0x0a, // 10 sec
    ];
    assert_eq!(Ok(None), Packet::decode(data));
    assert_eq!(12, data.len());
    // The assembler reads no stream: where the input ends inside a packet it
    // asks for more, and the end of the stream is the caller's to report.
    assert_eq!(poll_whole(data), Polled::NeedMore(12));
}

#[test]
fn test_decode_connect_wrong_version() {
    let data: &[u8] = &[
        0b00010000, 39, 0x00, 0x04, b'M', b'Q', b'T', b'T', 0x01,
        0b11001110, // +username, +password, -will retain, will qos=1, +last_will, +clean_session
        0x00, 0x0a, // 10 sec
        0x00, 0x04, b't', b'e', b's', b't', // client_id
        0x00, 0x02, b'/', b'a', // will topic = '/a'
        0x00, 0x07, b'o', b'f', b'f', b'l', b'i', b'n', b'e', // will msg = 'offline'
        0x00, 0x04, b'r', b'u', b's', b't', // username = 'rust'
        0x00, 0x02, b'm', b'q', // password = 'mq'
    ];
    assert_eq!(
        Packet::decode(data),
        Err(Error::InvalidProtocol("MQTT".to_owned(), 1)),
    );
    assert_eq!(Packet::decode(data).unwrap_err(), poll_error(data));
}

#[test]
fn test_decode_reserved_connect_flags() {
    let data: &[u8] = &[
        0b00010000, 16, 0x00, 0x04, b'M', b'Q', b'T', b'T', 0x04,
        0b11001111, // +username, +password, -will retain, will qos=1, +last_will, +clean_session
        0x00, 0x0a, // 10 sec
        0x00, 0x04, b't', b'e', b's', b't', // client_id
    ];
    assert_eq!(
        Packet::decode(data),
        Err(Error::InvalidConnectFlags(0b11001111)),
    );
    assert_eq!(Packet::decode(data).unwrap_err(), poll_error(data));
}

#[test]
fn test_decode_packet_n() {
    let data: &[u8] = &[
        // connect packet
        0b00010000, 39, 0x00, 0x04, b'M', b'Q', b'T', b'T', 0x04,
        0b11001110, // +username, +password, -will retain, will qos=1, +last_will, +clean_session
        0x00, 0x0a, // 10 sec
        0x00, 0x04, b't', b'e', b's', b't', // client_id
        0x00, 0x02, b'/', b'a', // will topic = '/a'
        0x00, 0x07, b'o', b'f', b'f', b'l', b'i', b'n', b'e', // will msg = 'offline'
        0x00, 0x04, b'r', b'u', b's', b't', // username = 'rust'
        0x00, 0x02, b'm', b'q', // password = 'mq'
        // pingreq packet
        0b11000000, 0b00000000, // pingresp packet
        0b11010000, 0b00000000,
    ];

    let pkt1 = Connect {
        protocol: Protocol::V311,
        keep_alive: 10,
        client_id: "test".to_owned(),
        clean_session: true,
        last_will: Some(LastWill {
            topic_name: TopicName::try_from("/a".to_owned()).unwrap(),
            message: Bytes::from(b"offline".to_vec()),
            qos: QoS::Level1,
            retain: false,
        }),
        username: Some("rust".to_owned()),
        password: Some(Bytes::from(b"mq".to_vec())),
    };

    let pkt2 = Packet::Pingreq;
    let pkt3 = Packet::Pingresp;

    // decode 3 packets in a sequence stored in the same buffer
    let mut offset = 0;
    let data1 = &data[offset..];
    let decode_pkt1 = Packet::decode(data1).unwrap().unwrap();
    assert_eq!(Packet::decode(data1).unwrap().unwrap(), poll_packet(data1));

    offset += total_len(pkt1.encode_len()).unwrap();
    let data2 = &data[offset..];
    let decode_pkt2 = Packet::decode(data2).unwrap().unwrap();
    assert_eq!(Packet::decode(data2).unwrap().unwrap(), poll_packet(data2));

    offset += total_len(0).unwrap();
    let data3 = &data[offset..];
    let decode_pkt3 = Packet::decode(data3).unwrap().unwrap();
    assert_eq!(Packet::decode(data3).unwrap().unwrap(), poll_packet(data3));

    assert_eq!(Packet::Connect(pkt1), decode_pkt1);
    assert_eq!(pkt2, decode_pkt2);
    assert_eq!(pkt3, decode_pkt3);
}

#[test]
fn test_decode_connack() {
    let data: &[u8] = &[0b00100000, 2, 0b00000000, 0b00000001];
    assert_eq!(
        Packet::decode(data).unwrap().unwrap(),
        Packet::Connack(Connack {
            session_present: false,
            code: ConnectReturnCode::UnacceptableProtocolVersion,
        })
    );
    assert_eq!(Packet::decode(data).unwrap().unwrap(), poll_packet(data));
}

#[test]
fn test_decode_ping_req() {
    let data: &[u8] = &[0b11000000, 0b00000000];
    assert_eq!(Ok(Some(Packet::Pingreq)), Packet::decode(data));
    assert_eq!(Packet::decode(data).unwrap().unwrap(), poll_packet(data));
}

#[test]
fn test_decode_ping_resp() {
    let data: &[u8] = &[0b11010000, 0b00000000];
    assert_eq!(Ok(Some(Packet::Pingresp)), Packet::decode(data));
    assert_eq!(Packet::decode(data).unwrap().unwrap(), poll_packet(data));
}

#[test]
fn test_decode_disconnect() {
    let data: &[u8] = &[0b11100000, 0b00000000];
    assert_eq!(Ok(Some(Packet::Disconnect)), Packet::decode(data));
    assert_eq!(Packet::decode(data).unwrap().unwrap(), poll_packet(data));
}

#[test]
fn test_decode_publish() {
    let data: &[u8] = &[
        0b00110000, 10, 0x00, 0x03, b'a', b'/', b'b', b'h', b'e', b'l', b'l', b'o', //
        0b00111000, 10, 0x00, 0x03, b'a', b'/', b'b', b'h', b'e', b'l', b'l', b'o', //
        0b00111101, 12, 0x00, 0x03, b'a', b'/', b'b', 0, 10, b'h', b'e', b'l', b'l', b'o',
    ];

    let data1 = data;
    assert_eq!(
        Header::decode(data1).unwrap(),
        Header::new_with(0b00110000, 10).unwrap(),
    );
    assert_eq!(data.len(), 38);

    match Packet::decode(data1).unwrap().unwrap() {
        Packet::Publish(p) => {
            assert!(!p.dup);
            assert!(!p.retain);
            assert_eq!(p.qos_pid, QosPid::Level0);
            assert_eq!(p.topic_name.as_str(), "a/b");
            assert_eq!(core::str::from_utf8(p.payload.as_ref()).unwrap(), "hello");
        }
        other => panic!("Failed decode: {:?}", other),
    }
    assert_eq!(Packet::decode(data1).unwrap().unwrap(), poll_packet(data1));

    let data2 = &data[12..];
    match Packet::decode(data2).unwrap().unwrap() {
        Packet::Publish(p) => {
            assert!(p.dup);
            assert!(!p.retain);
            assert_eq!(p.qos_pid, QosPid::Level0);
            assert_eq!(p.topic_name.as_str(), "a/b");
            assert_eq!(core::str::from_utf8(p.payload.as_ref()).unwrap(), "hello");
        }
        other => panic!("Failed decode: {:?}", other),
    }
    assert_eq!(Packet::decode(data2).unwrap().unwrap(), poll_packet(data2));

    let data3 = &data[24..];
    match Packet::decode(data3).unwrap().unwrap() {
        Packet::Publish(p) => {
            assert!(p.dup);
            assert!(p.retain);
            assert_eq!(p.qos_pid, QosPid::Level2(Pid::try_from(10).unwrap()));
            assert_eq!(p.topic_name.as_str(), "a/b");
            assert_eq!(core::str::from_utf8(p.payload.as_ref()).unwrap(), "hello");
        }
        other => panic!("Failed decode: {:?}", other),
    }
    assert_eq!(Packet::decode(data3).unwrap().unwrap(), poll_packet(data3));
}

#[test]
fn test_decode_pub_ack() {
    let data: &[u8] = &[0b01000000, 0b00000010, 0, 10];
    assert_eq!(
        Packet::decode(data).unwrap().unwrap(),
        Packet::Puback(Pid::try_from(10).unwrap())
    );
    assert_eq!(Packet::decode(data).unwrap().unwrap(), poll_packet(data));
}

#[test]
fn test_decode_pub_rec() {
    let data: &[u8] = &[0b01010000, 0b00000010, 0, 10];
    assert_eq!(
        Packet::decode(data).unwrap().unwrap(),
        Packet::Pubrec(Pid::try_from(10).unwrap())
    );
    assert_eq!(Packet::decode(data).unwrap().unwrap(), poll_packet(data));
}

#[test]
fn test_decode_pub_rel() {
    let data: &[u8] = &[0b01100010, 0b00000010, 0, 10];
    assert_eq!(
        Packet::decode(data).unwrap().unwrap(),
        Packet::Pubrel(Pid::try_from(10).unwrap())
    );
    assert_eq!(Packet::decode(data).unwrap().unwrap(), poll_packet(data));
}

#[test]
fn test_decode_pub_comp() {
    let data: &[u8] = &[0b01110000, 0b00000010, 0, 10];
    assert_eq!(
        Packet::decode(data).unwrap().unwrap(),
        Packet::Pubcomp(Pid::try_from(10).unwrap())
    );
    assert_eq!(Packet::decode(data).unwrap().unwrap(), poll_packet(data));
}

#[test]
fn test_decode_subscribe() {
    let data: &[u8] = &[0b10000010, 8, 0, 10, 0, 3, b'a', b'/', b'b', 0];
    assert_eq!(
        Packet::decode(data).unwrap().unwrap(),
        Packet::Subscribe(Subscribe {
            pid: Pid::try_from(10).unwrap(),
            topics: vec![(
                TopicFilter::try_from("a/b".to_owned()).unwrap(),
                QoS::Level0
            )],
        })
    );
    assert_eq!(Packet::decode(data).unwrap().unwrap(), poll_packet(data));
}

#[test]
fn test_decode_suback() {
    let data: &[u8] = &[0b10010000, 3, 0, 10, 0b00000010];
    assert_eq!(
        Packet::decode(data).unwrap().unwrap(),
        Packet::Suback(Suback {
            pid: Pid::try_from(10).unwrap(),
            topics: vec![SubscribeReturnCode::MaxLevel2],
        })
    );
    assert_eq!(Packet::decode(data).unwrap().unwrap(), poll_packet(data));
}

#[test]
fn test_decode_unsubscribe() {
    let data: &[u8] = &[0b10100010, 5, 0, 10, 0, 1, b'a'];
    assert_eq!(
        Packet::decode(data).unwrap().unwrap(),
        Packet::Unsubscribe(Unsubscribe {
            pid: Pid::try_from(10).unwrap(),
            topics: vec![TopicFilter::try_from("a".to_owned()).unwrap(),],
        })
    );
    assert_eq!(Packet::decode(data).unwrap().unwrap(), poll_packet(data));
}

#[test]
fn test_decode_unsub_ack() {
    let data: &[u8] = &[0b10110000, 2, 0, 10];
    assert_eq!(
        Packet::decode(data).unwrap().unwrap(),
        Packet::Unsuback(Pid::try_from(10).unwrap())
    );
    assert_eq!(Packet::decode(data).unwrap().unwrap(), poll_packet(data));
}
