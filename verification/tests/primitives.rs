use mqtt_proto::{
    decode_raw_header, decode_var_int, header_len, read_bytes, read_string, read_u16, read_u32,
    read_u8, remaining_len, total_len, var_int_len, write_bytes, write_string, write_u16,
    write_u32, write_u8, write_var_int, Error, Pid, Protocol, QoS, QosPid, TopicFilter,
    TopicName, VarByteInt, VarBytes,
};

fn var_int(value: u32) -> Vec<u8> {
    let mut out = Vec::new();
    write_var_int(&mut out, value).unwrap();
    out
}

#[test]
fn var_int_edge_values_round_trip() {
    let cases: Vec<(u32, Vec<u8>)> = vec![
        (0, vec![0x00]),
        (127, vec![0x7f]),
        (128, vec![0x80, 0x01]),
        (16383, vec![0xff, 0x7f]),
        (16384, vec![0x80, 0x80, 0x01]),
        (2097151, vec![0xff, 0xff, 0x7f]),
        (2097152, vec![0x80, 0x80, 0x80, 0x01]),
        (268435455, vec![0xff, 0xff, 0xff, 0x7f]),
    ];
    for (value, bytes) in cases {
        assert_eq!(var_int(value), bytes);
        let mut offset = 0;
        assert_eq!(decode_var_int(&bytes, &mut offset), Ok(value));
        assert_eq!(offset, bytes.len());
        assert_eq!(var_int_len(value as usize), Ok(bytes.len()));
    }
}

#[test]
fn var_int_above_maximum_is_refused() {
    let mut out = vec![9u8];
    assert_eq!(
        write_var_int(&mut out, 268435456),
        Err(Error::InvalidVarByteInt)
    );
    assert_eq!(out, vec![9u8]);
    assert_eq!(var_int_len(268435456), Err(Error::InvalidVarByteInt));
    assert_eq!(total_len(268435456), Err(Error::InvalidVarByteInt));
    assert_eq!(header_len(268435456), Err(Error::InvalidVarByteInt));
}

#[test]
fn var_int_with_five_continuations_is_refused() {
    let mut offset = 0;
    assert_eq!(
        decode_var_int(&[0x80, 0x80, 0x80, 0x80, 0x01], &mut offset),
        Err(Error::InvalidVarByteInt)
    );
    let mut offset = 0;
    assert_eq!(
        decode_var_int(&[0xff, 0xff, 0xff, 0xff, 0xff], &mut offset),
        Err(Error::InvalidVarByteInt)
    );
}

#[test]
fn var_int_truncated_is_eof() {
    for bytes in [vec![], vec![0x80], vec![0x80, 0x80], vec![0xff, 0xff, 0xff]] {
        let mut offset = 0;
        assert_eq!(
            decode_var_int(&bytes, &mut offset),
            Err(Error::UnexpectedEof)
        );
    }
}

#[test]
fn var_int_is_read_at_an_offset() {
    let bytes = [0xaa, 0x90, 0x4e, 0xbb];
    let mut offset = 1;
    assert_eq!(decode_var_int(&bytes, &mut offset), Ok(10000));
    assert_eq!(offset, 3);
}

#[test]
fn fixed_width_integers() {
    let mut out = Vec::new();
    write_u8(&mut out, 0xab);
    write_u16(&mut out, 0x1234);
    write_u32(&mut out, 0xdeadbeef);
    assert_eq!(out, vec![0xab, 0x12, 0x34, 0xde, 0xad, 0xbe, 0xef]);
    let mut offset = 0;
    assert_eq!(read_u8(&out, &mut offset), Ok(0xab));
    assert_eq!(read_u16(&out, &mut offset), Ok(0x1234));
    assert_eq!(read_u32(&out, &mut offset), Ok(0xdeadbeef));
    assert_eq!(offset, 7);
    assert_eq!(read_u8(&out, &mut offset), Err(Error::UnexpectedEof));
    let mut offset = 6;
    assert_eq!(read_u16(&out, &mut offset), Err(Error::UnexpectedEof));
    let mut offset = 4;
    assert_eq!(read_u32(&out, &mut offset), Err(Error::UnexpectedEof));
}

#[test]
fn length_prefixed_bytes() {
    let mut out = Vec::new();
    assert_eq!(write_bytes(&mut out, b"mq"), Ok(()));
    assert_eq!(out, vec![0, 2, b'm', b'q']);
    let mut offset = 0;
    assert_eq!(read_bytes(&out, &mut offset), Ok(&b"mq"[..]));
    assert_eq!(offset, 4);
    let mut offset = 0;
    assert_eq!(
        read_bytes(&[0, 3, b'm', b'q'], &mut offset),
        Err(Error::UnexpectedEof)
    );
    let long = vec![0u8; 65536];
    let mut out = vec![1u8];
    assert_eq!(write_bytes(&mut out, &long), Err(Error::PayloadTooLong));
    assert_eq!(out, vec![1u8]);
    let fits = vec![7u8; 65535];
    let mut out = Vec::new();
    assert_eq!(write_bytes(&mut out, &fits), Ok(()));
    assert_eq!(out.len(), 65537);
    assert_eq!(&out[..2], &[0xff, 0xff]);
}

#[test]
fn length_prefixed_strings() {
    let mut out = Vec::new();
    assert_eq!(write_string(&mut out, "h\u{e9}"), Ok(()));
    assert_eq!(out, vec![0, 3, b'h', 0xc3, 0xa9]);
    let mut offset = 0;
    assert_eq!(read_string(&out, &mut offset), Ok("h\u{e9}".to_owned()));
    assert_eq!(offset, 5);
    let mut offset = 0;
    assert_eq!(
        read_string(&[0, 2, b'a', 0xc0], &mut offset),
        Err(Error::InvalidString)
    );
    let mut offset = 0;
    assert_eq!(read_string(&[0, 0], &mut offset), Ok(String::new()));
}

#[test]
fn raw_header() {
    let mut offset = 0;
    assert_eq!(
        decode_raw_header(&[0x30, 0x90, 0x4e, 1], &mut offset),
        Ok((0x30, 10000))
    );
    assert_eq!(offset, 3);
    let mut offset = 0;
    assert_eq!(
        decode_raw_header(&[], &mut offset),
        Err(Error::UnexpectedEof)
    );
    let mut offset = 0;
    assert_eq!(
        decode_raw_header(&[0x30, 0x80], &mut offset),
        Err(Error::UnexpectedEof)
    );
}

#[test]
fn packet_lengths() {
    assert_eq!(header_len(0), Ok(2));
    assert_eq!(header_len(127), Ok(2));
    assert_eq!(header_len(128), Ok(3));
    assert_eq!(header_len(16384), Ok(4));
    assert_eq!(header_len(2097152), Ok(5));
    assert_eq!(total_len(0), Ok(2));
    assert_eq!(total_len(127), Ok(129));
    assert_eq!(total_len(128), Ok(131));
    assert_eq!(total_len(268435455), Ok(268435460));
    assert_eq!(remaining_len(2), Ok(0));
    assert_eq!(remaining_len(129), Ok(127));
    assert_eq!(remaining_len(131), Ok(128));
    assert_eq!(remaining_len(130), Err(Error::InvalidRemainingLength));
    assert_eq!(remaining_len(1), Err(Error::InvalidRemainingLength));
    assert_eq!(remaining_len(268435461), Err(Error::InvalidRemainingLength));
}

#[test]
fn packet_identifiers() {
    assert_eq!(Pid::try_from(0), Err(Error::InvalidPid));
    assert_eq!(Pid::from_u16(0), Err(Error::InvalidPid));
    assert_eq!(Pid::try_from(1).unwrap().value(), 1);
    assert_eq!(Pid::try_from(65535).unwrap().value(), 65535);
}

#[test]
fn quality_of_service() {
    assert_eq!(QoS::from_u8(0), Ok(QoS::Level0));
    assert_eq!(QoS::from_u8(1), Ok(QoS::Level1));
    assert_eq!(QoS::from_u8(2), Ok(QoS::Level2));
    assert_eq!(QoS::from_u8(3), Err(Error::InvalidQos(3)));
    assert_eq!(QoS::from_u8(200), Err(Error::InvalidQos(200)));
    assert_eq!(QoS::Level2.to_u8(), 2);
    let pid = Pid::try_from(7).unwrap();
    assert_eq!(QosPid::Level0.qos(), QoS::Level0);
    assert_eq!(QosPid::Level0.pid(), None);
    assert_eq!(QosPid::Level1(pid).qos(), QoS::Level1);
    assert_eq!(QosPid::Level2(pid).pid(), Some(pid));
}

#[test]
fn var_byte_int_values() {
    assert_eq!(VarByteInt::try_from(268435455).unwrap().value(), 268435455);
    assert_eq!(VarByteInt::try_from(268435456), Err(Error::InvalidVarByteInt));
    assert_eq!(VarByteInt::from_u32(0).unwrap().value(), 0);
}

#[test]
fn var_bytes_buffer() {
    let v = VarBytes::from_slice(b"abc");
    assert_eq!(v.len(), 3);
    assert!(!v.is_empty());
    assert_eq!(v.as_slice(), b"abc");
    assert!(VarBytes::from_slice(b"").is_empty());
}

#[test]
fn protocol_names_and_levels() {
    let mut offset = 0;
    assert_eq!(
        Protocol::decode(&[0, 4, b'M', b'Q', b'T', b'T', 4], &mut offset),
        Ok(Protocol::V311)
    );
    assert_eq!(offset, 7);
    let mut offset = 0;
    assert_eq!(
        Protocol::decode(&[0, 4, b'M', b'Q', b'T', b'T', 5], &mut offset),
        Ok(Protocol::V50)
    );
    let mut offset = 0;
    assert_eq!(
        Protocol::decode(&[0, 6, b'M', b'Q', b'I', b's', b'd', b'p', 3], &mut offset),
        Ok(Protocol::V310)
    );
    let mut offset = 0;
    assert_eq!(
        Protocol::decode(&[0, 6, b'M', b'Q', b'I', b's', b'd', b'p', 4], &mut offset),
        Err(Error::InvalidProtocol("MQIsdp".to_owned(), 4))
    );
    let mut offset = 0;
    assert_eq!(
        Protocol::decode(&[0, 4, b'M', b'Q', b'T', b'T'], &mut offset),
        Err(Error::UnexpectedEof)
    );
    let mut out = Vec::new();
    Protocol::V310.encode(&mut out);
    assert_eq!(out, vec![0, 6, b'M', b'Q', b'I', b's', b'd', b'p', 3]);
    assert_eq!(Protocol::V310.encode_len(), 9);
    let mut out = Vec::new();
    Protocol::V50.encode(&mut out);
    assert_eq!(out, vec![0, 4, b'M', b'Q', b'T', b'T', 5]);
    assert_eq!(Protocol::V50.encode_len(), 7);
    assert_eq!(Protocol::V311.level(), 4);
    assert_eq!(Protocol::V311.name(), "MQTT");
}

fn name(s: &str) -> Result<TopicName, Error> {
    TopicName::try_from(s.to_owned())
}

fn filter(s: &str) -> Result<TopicFilter, Error> {
    TopicFilter::try_from(s.to_owned())
}

#[test]
fn topic_names() {
    assert_eq!(name("a/b").unwrap().as_str(), "a/b");
    assert_eq!(name("/").unwrap().len(), 1);
    assert!(name("$SYS/broker").unwrap().is_sys());
    assert!(!name("a/$b").unwrap().is_sys());
    assert_eq!(name(""), Err(Error::EmptyTopic));
    assert_eq!(name("a/+"), Err(Error::InvalidTopic));
    assert_eq!(name("+"), Err(Error::InvalidTopic));
    assert_eq!(name("a/#"), Err(Error::InvalidTopic));
    assert_eq!(name("a#b"), Err(Error::InvalidTopic));
    assert_eq!(name("a\u{0}b"), Err(Error::InvalidTopic));
    assert_eq!(name(&"x".repeat(65536)), Err(Error::PayloadTooLong));
    assert_eq!(name(&"x".repeat(65535)).unwrap().len(), 65535);
    assert_eq!(name("h\u{e9}").unwrap().as_bytes(), &[b'h', 0xc3, 0xa9]);
    assert!(TopicName::empty().is_empty());
    assert!(!name("a").unwrap().is_empty());
}

#[test]
fn topic_filters_follow_the_wildcard_rules() {
    for ok in [
        "a", "a/b", "/", "+", "#", "a/+", "+/a", "a/+/b", "a/#", "+/+/#", "/+", "+/", "/#",
        "$SYS/#", "a//b",
    ] {
        assert_eq!(filter(ok).unwrap().as_str(), ok, "{}", ok);
    }
    for bad in [
        "a+", "+a", "a/+b", "a/b+/c", "a#", "#a", "a/#/b", "#/", "a/#b", "##", "++", "a/b#",
        "a\u{0}",
    ] {
        assert_eq!(filter(bad), Err(Error::InvalidTopic), "{}", bad);
    }
    assert_eq!(filter(""), Err(Error::EmptyTopic));
    assert_eq!(filter(&"x".repeat(65536)), Err(Error::PayloadTooLong));
}

#[test]
fn shared_subscriptions() {
    let f = filter("$share/group/a/+").unwrap();
    assert!(f.is_shared());
    assert_eq!(f.shared_filter_at(), Some(13));
    assert_eq!(&f.as_str()[13..], "a/+");
    assert_eq!(f.len(), 16);
    let g = filter("$share/g/#").unwrap();
    assert_eq!(g.shared_filter_at(), Some(9));
    let plain = filter("a/b").unwrap();
    assert!(!plain.is_shared());
    assert_eq!(plain.shared_filter_at(), None);
    assert!(!filter("$shared/g/a").unwrap().is_shared());
    for bad in [
        "$share/", "$share//a", "$share/g", "$share/g/", "$share/+/a", "$share/#",
        "$share/g+/a", "$share/g#/a",
    ] {
        assert_eq!(filter(bad), Err(Error::InvalidTopic), "{}", bad);
    }
    assert_eq!(filter("$share/g/a"), filter("$share/g/a"));
    assert_ne!(filter("$share/g/a"), filter("$share/h/a"));
}

#[test]
fn readers_leave_the_offset_when_they_fail() {
    let buf = [0u8, 3, b'a', 0xc0, 0x80];
    let mut offset = 5;
    assert_eq!(read_u8(&buf, &mut offset), Err(Error::UnexpectedEof));
    assert_eq!(offset, 5);
    let mut offset = 4;
    assert_eq!(read_u16(&buf, &mut offset), Err(Error::UnexpectedEof));
    assert_eq!(offset, 4);
    let mut offset = 2;
    assert_eq!(read_u32(&buf, &mut offset), Err(Error::UnexpectedEof));
    assert_eq!(offset, 2);
    let mut offset = 4;
    assert_eq!(decode_var_int(&buf, &mut offset), Err(Error::UnexpectedEof));
    assert_eq!(offset, 4);
    let mut offset = 0;
    assert_eq!(read_bytes(&[0, 3, b'a'], &mut offset), Err(Error::UnexpectedEof));
    assert_eq!(offset, 0);
    let mut offset = 0;
    assert_eq!(read_string(&[0, 2, b'a', 0xc0], &mut offset), Err(Error::InvalidString));
    assert_eq!(offset, 0);
    let mut offset = 3;
    assert_eq!(decode_raw_header(&buf, &mut offset), Err(Error::UnexpectedEof));
    assert_eq!(offset, 3);
    let mut offset = 1;
    assert_eq!(
        decode_raw_header(&[9, 0x10, 0x80, 0x80, 0x80, 0x80], &mut offset),
        Err(Error::InvalidVarByteInt)
    );
    assert_eq!(offset, 1);
}
