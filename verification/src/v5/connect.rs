//! Connect, connack, disconnect and auth.

use crate::common::error::{Error, ErrorView};
use crate::common::outside::{bytes_as_slice, bytes_contents, bytes_from_slice};
use crate::common::topic::{spec_topic_name, TopicName};
use crate::common::types::{Protocol, QoS};
use crate::common::utils::{
    read_bytes, read_opt_bytes, read_opt_string, read_string, read_u16, read_u8, spec_field_bytes,
    spec_read_bytes, spec_read_opt_bytes, spec_read_opt_string, spec_read_string, spec_read_u16,
    spec_read_u8, spec_string_bytes, spec_u16_bytes, write_bytes, write_string, write_u16, write_u8,
    FIELD_MAX,
};
use crate::v5::error::{lift, read_agrees5, ErrorV5, ErrorV5View};
use crate::v5::header::{Header, PacketType};
use crate::v5::properties::{
    spec_items_fit, spec_properties_bytes, spec_read_properties, Properties, PropertyScope,
    PropertyView,
};
use bytes::Bytes;
use vstd::prelude::*;
use vstd::utf8::encode_utf8;

verus! {

/// The message a server publishes when its client is lost.
#[derive(Debug, Clone, PartialEq, Eq)]
pub struct LastWill {
    pub qos: QoS,
    pub retain: bool,
    pub topic_name: TopicName,
    pub payload: Bytes,
    pub properties: Properties,
}

/// Mathematical model of [`LastWill`].
pub struct LastWillView {
    pub qos: QoS,
    pub retain: bool,
    pub topic_name: Seq<char>,
    pub payload: Seq<u8>,
    pub properties: Seq<PropertyView>,
}

impl View for LastWill {
    type V = LastWillView;

    open spec fn view(&self) -> LastWillView {
        LastWillView {
            qos: self.qos,
            retain: self.retain,
            topic_name: self.topic_name@,
            payload: bytes_contents(self.payload),
            properties: self.properties@,
        }
    }
}

impl LastWillView {
    /// The will's bytes in a connect packet: properties, topic, payload.
    pub open spec fn spec_bytes(self) -> Seq<u8> {
        spec_properties_bytes(self.properties) + spec_string_bytes(self.topic_name)
            + spec_field_bytes(self.payload)
    }

    /// The will's part of the connect flags.
    pub open spec fn spec_flags(self) -> int {
        4 + self.qos.spec_to_u8() * 8 + if self.retain {
            32int
        } else {
            0int
        }
    }

    /// The will has an encoding.
    pub open spec fn fits(self) -> bool {
        &&& self.payload.len() <= FIELD_MAX
        &&& encode_utf8(self.topic_name).len() <= FIELD_MAX
        &&& spec_items_fit(self.properties)
    }
}

impl LastWill {
    /// A will that is not retained and has no properties.
    pub fn new(qos: QoS, topic_name: TopicName, payload: Bytes) -> (w: LastWill)
        ensures
            w@ == (LastWillView {
                qos,
                retain: false,
                topic_name: topic_name@,
                payload: bytes_contents(payload),
                properties: Seq::empty(),
            }),
    {
        LastWill { qos, retain: false, topic_name, payload, properties: Properties::new() }
    }

    /// Whether the will has an encoding.
    pub fn fits(&self) -> (b: bool)
        ensures
            b == self@.fits(),
    {
        let n = self.topic_name.len();
        bytes_as_slice(&self.payload).len() <= FIELD_MAX && self.properties.checked_len().is_some()
    }

    /// Appends properties, topic and payload.
    fn encode(&self, out: &mut Vec<u8>)
        requires
            self@.fits(),
        ensures
            final(out)@ == old(out)@ + self@.spec_bytes(),
    {
        let r0 = self.properties.encode(out);
        let r1 = write_string(out, self.topic_name.as_str());
        let r2 = write_bytes(out, bytes_as_slice(&self.payload));
        assert(out@ =~= old(out)@ + self@.spec_bytes());
    }
}

/// Body of a connect packet.
#[derive(Debug, Clone, PartialEq, Eq)]
pub struct Connect {
    pub protocol: Protocol,
    pub clean_start: bool,
    pub keep_alive: u16,
    pub properties: Properties,
    pub client_id: String,
    pub last_will: Option<LastWill>,
    pub username: Option<String>,
    pub password: Option<Bytes>,
}

/// Mathematical model of [`Connect`].
pub struct ConnectView {
    pub protocol: Protocol,
    pub clean_start: bool,
    pub keep_alive: u16,
    pub properties: Seq<PropertyView>,
    pub client_id: Seq<char>,
    pub last_will: Option<LastWillView>,
    pub username: Option<Seq<char>>,
    pub password: Option<Seq<u8>>,
}

impl View for Connect {
    type V = ConnectView;

    open spec fn view(&self) -> ConnectView {
        ConnectView {
            protocol: self.protocol,
            clean_start: self.clean_start,
            keep_alive: self.keep_alive,
            properties: self.properties@,
            client_id: self.client_id@,
            last_will: match self.last_will {
                Some(w) => Some(w@),
                None => None,
            },
            username: match self.username {
                Some(u) => Some(u@),
                None => None,
            },
            password: match self.password {
                Some(p) => Some(bytes_contents(p)),
                None => None,
            },
        }
    }
}

/// The will of a connect packet with the given flags, read at `off`: present
/// exactly where bit 2 is set, as properties, topic and payload. Without a
/// will, the bits of its quality of service and of retain must be clear.
pub open spec fn spec_read_last_will(s: Seq<u8>, off: int, flags: u8) -> Result<
    (Option<LastWillView>, int),
    ErrorV5View,
> {
    if (flags / 4) % 2 == 1 {
        match spec_read_properties(s, off, PropertyScope::Will) {
            Err(e) => Err(e),
            Ok((properties, off0)) => match spec_read_string(s, off0) {
                Err(e) => Err(ErrorV5View::Common(e)),
                Ok((topic, off1)) => match spec_read_bytes(s, off1) {
                    Err(e) => Err(ErrorV5View::Common(e)),
                    Ok((payload, off2)) => match QoS::spec_from_u8((flags / 8) % 4) {
                        Err(e) => Err(ErrorV5View::Common(e)),
                        Ok(qos) => match spec_topic_name(topic) {
                            Err(e) => Err(ErrorV5View::Common(e)),
                            Ok(topic_name) => Ok(
                                (
                                    Some(
                                        LastWillView {
                                            qos,
                                            retain: (flags / 32) % 2 == 1,
                                            topic_name,
                                            payload,
                                            properties,
                                        },
                                    ),
                                    off2,
                                ),
                            ),
                        },
                    },
                },
            },
        }
    } else if (flags / 8) % 8 != 0 {
        Err(ErrorV5View::Common(ErrorView::InvalidConnectFlags(flags)))
    } else {
        Ok((None, off))
    }
}

impl ConnectView {
    /// The connect flags: user name, password, will retain, will quality of
    /// service, will, clean start, and a reserved bit that is zero.
    pub open spec fn spec_flags(self) -> u8 {
        ((if self.clean_start {
            2int
        } else {
            0int
        }) + (match self.last_will {
            Some(w) => w.spec_flags(),
            None => 0int,
        }) + (if self.password is Some {
            64int
        } else {
            0int
        }) + (if self.username is Some {
            128int
        } else {
            0int
        })) as u8
    }

    /// The bytes behind the properties: client identifier, will, user name,
    /// password.
    pub open spec fn spec_payload_bytes(self) -> Seq<u8> {
        spec_string_bytes(self.client_id) + (match self.last_will {
            Some(w) => w.spec_bytes(),
            None => Seq::empty(),
        }) + (match self.username {
            Some(u) => spec_string_bytes(u),
            None => Seq::empty(),
        }) + (match self.password {
            Some(p) => spec_field_bytes(p),
            None => Seq::empty(),
        })
    }

    /// The body of the connect packet.
    pub open spec fn spec_bytes(self) -> Seq<u8> {
        self.protocol.spec_bytes().push(self.spec_flags()) + spec_u16_bytes(self.keep_alive)
            + spec_properties_bytes(self.properties) + self.spec_payload_bytes()
    }

    /// Every part has an encoding.
    pub open spec fn fits(self) -> bool {
        &&& encode_utf8(self.client_id).len() <= FIELD_MAX
        &&& spec_items_fit(self.properties)
        &&& self.last_will matches Some(w) ==> w.fits()
        &&& self.username matches Some(u) ==> encode_utf8(u).len() <= FIELD_MAX
        &&& self.password matches Some(p) ==> p.len() <= FIELD_MAX
    }

    /// The rest of the parser, behind the client identifier: will, user
    /// name, password.
    pub open spec fn spec_decode_payload(
        s: Seq<u8>,
        off: int,
        flags: u8,
        keep_alive: u16,
        properties: Seq<PropertyView>,
        client_id: Seq<char>,
    ) -> Result<(ConnectView, int), ErrorV5View> {
        match spec_read_last_will(s, off, flags) {
            Err(e) => Err(e),
            Ok((last_will, off1)) => match spec_read_opt_string(s, off1, flags / 128 == 1) {
                Err(e) => Err(ErrorV5View::Common(e)),
                Ok((username, off2)) => match spec_read_opt_bytes(s, off2, (flags / 64) % 2 == 1) {
                    Err(e) => Err(ErrorV5View::Common(e)),
                    Ok((password, off3)) => Ok(
                        (
                            ConnectView {
                                protocol: Protocol::V50,
                                clean_start: (flags / 2) % 2 == 1,
                                keep_alive,
                                properties,
                                client_id,
                                last_will,
                                username,
                                password,
                            },
                            off3,
                        ),
                    ),
                },
            },
        }
    }

    /// The parser behind [`Connect::decode`]: protocol, which must be 5.0;
    /// flags, whose reserved bit must be clear; keep-alive; properties;
    /// client identifier; then will, user name and password as the flags
    /// say.
    pub open spec fn spec_decode(s: Seq<u8>, off: int) -> Result<(ConnectView, int), ErrorV5View> {
        match Protocol::spec_decode(s, off) {
            Err(e) => Err(ErrorV5View::Common(e)),
            Ok((protocol, off0)) => if protocol != Protocol::V50 {
                Err(ErrorV5View::Common(ErrorView::UnexpectedProtocol(protocol)))
            } else {
                match spec_read_u8(s, off0) {
                    Err(e) => Err(ErrorV5View::Common(e)),
                    Ok((flags, off1)) => if flags % 2 != 0 {
                        Err(ErrorV5View::Common(ErrorView::InvalidConnectFlags(flags)))
                    } else {
                        match spec_read_u16(s, off1) {
                            Err(e) => Err(ErrorV5View::Common(e)),
                            Ok((keep_alive, off2)) => match spec_read_properties(
                                s,
                                off2,
                                PropertyScope::Connect,
                            ) {
                                Err(e) => Err(e),
                                Ok((properties, off3)) => match spec_read_string(s, off3) {
                                    Err(e) => Err(ErrorV5View::Common(e)),
                                    Ok((client_id, off4)) => Self::spec_decode_payload(
                                        s,
                                        off4,
                                        flags,
                                        keep_alive,
                                        properties,
                                        client_id,
                                    ),
                                },
                            },
                        }
                    },
                }
            },
        }
    }
}

/// Reads the will of a connect packet with the given flags.
fn read_last_will(buf: &[u8], offset: &mut usize, flags: u8) -> (res: Result<
    Option<LastWill>,
    ErrorV5,
>)
    ensures
        match spec_read_last_will(buf@, *old(offset) as int, flags) {
            Ok((w, end)) => res is Ok && *final(offset) == end && match res->Ok_0 {
                Some(x) => w == Some(x@),
                None => w is None,
            },
            Err(e) => res is Err && res->Err_0@ == e,
        },
{
    if (flags / 4) % 2 == 1 {
        let properties = Properties::decode(buf, offset, PropertyScope::Will)?;
        let topic = lift(read_string(buf, offset))?;
        let payload = lift(read_bytes(buf, offset))?;
        let qos = lift(QoS::from_u8((flags / 8) % 4))?;
        let retain = (flags / 32) % 2 == 1;
        let topic_name = lift(TopicName::from_string(topic))?;
        Ok(
            Some(
                LastWill { qos, retain, topic_name, payload: bytes_from_slice(payload), properties },
            ),
        )
    } else if (flags / 8) % 8 != 0 {
        Err(ErrorV5::Common(Error::InvalidConnectFlags(flags)))
    } else {
        Ok(None)
    }
}

impl Connect {
    /// A connect packet with a clean start and neither properties nor will
    /// nor credentials.
    pub fn new(client_id: String, keep_alive: u16) -> (c: Connect)
        ensures
            c@ == (ConnectView {
                protocol: Protocol::V50,
                clean_start: true,
                keep_alive,
                properties: Seq::empty(),
                client_id: client_id@,
                last_will: None,
                username: None,
                password: None,
            }),
    {
        Connect {
            protocol: Protocol::V50,
            clean_start: true,
            keep_alive,
            properties: Properties::new(),
            client_id,
            last_will: None,
            username: None,
            password: None,
        }
    }

    /// Reads the body of a connect packet at `offset`.
    #[verifier::rlimit(50)]
    pub fn decode(buf: &[u8], offset: &mut usize) -> (res: Result<Connect, ErrorV5>)
        ensures
            read_agrees5(res, *final(offset), ConnectView::spec_decode(buf@, *old(offset) as int)),
    {
        let protocol = lift(Protocol::decode(buf, offset))?;
        match protocol {
            Protocol::V50 => {},
            _ => {
                return Err(ErrorV5::Common(Error::UnexpectedProtocol(protocol)));
            },
        }
        let flags: u8 = lift(read_u8(buf, offset))?;
        if flags % 2 != 0 {
            return Err(ErrorV5::Common(Error::InvalidConnectFlags(flags)));
        }
        let keep_alive = lift(read_u16(buf, offset))?;
        let properties = Properties::decode(buf, offset, PropertyScope::Connect)?;
        let client_id = lift(read_string(buf, offset))?;
        let last_will = read_last_will(buf, offset, flags)?;
        let username = lift(read_opt_string(buf, offset, flags / 128 == 1))?;
        let password = lift(read_opt_bytes(buf, offset, (flags / 64) % 2 == 1))?;
        let clean_start = (flags / 2) % 2 == 1;
        Ok(
            Connect {
                protocol,
                clean_start,
                keep_alive,
                properties,
                client_id,
                last_will,
                username,
                password,
            },
        )
    }

    /// The connect flags.
    pub fn flags(&self) -> (f: u8)
        ensures
            f == self@.spec_flags(),
    {
        let mut f: u8 = 0;
        if self.clean_start {
            f = f + 2;
        }
        match &self.last_will {
            Some(w) => {
                f = f + 4 + w.qos.to_u8() * 8;
                if w.retain {
                    f = f + 32;
                }
            },
            None => {},
        }
        if self.password.is_some() {
            f = f + 64;
        }
        if self.username.is_some() {
            f = f + 128;
        }
        f
    }

    /// Whether every part has an encoding.
    pub fn fits(&self) -> (b: bool)
        ensures
            b == self@.fits(),
    {
        if self.client_id.as_str().as_bytes().len() > FIELD_MAX {
            return false;
        }
        if self.properties.checked_len().is_none() {
            return false;
        }
        match &self.last_will {
            Some(w) => {
                if !w.fits() {
                    return false;
                }
            },
            None => {},
        }
        match &self.username {
            Some(u) => {
                if u.as_str().as_bytes().len() > FIELD_MAX {
                    return false;
                }
            },
            None => {},
        }
        match &self.password {
            Some(p) => {
                if bytes_as_slice(p).len() > FIELD_MAX {
                    return false;
                }
            },
            None => {},
        }
        true
    }

    /// Appends the body of the packet, or fails with `PayloadTooLong`,
    /// leaving `out` as it was, where a part has no encoding.
    pub fn encode(&self, out: &mut Vec<u8>) -> (res: Result<(), ErrorV5>)
        ensures
            match res {
                Ok(_) => self@.fits() && final(out)@ == old(out)@ + self@.spec_bytes(),
                Err(e) => e == ErrorV5::Common(Error::PayloadTooLong) && !self@.fits() && final(out)@
                    == old(out)@,
            },
    {
        if !self.fits() {
            return Err(ErrorV5::Common(Error::PayloadTooLong));
        }
        self.protocol.encode(out);
        write_u8(out, self.flags());
        write_u16(out, self.keep_alive);
        let rp = self.properties.encode(out);
        self.encode_payload(out);
        assert(out@ =~= old(out)@ + self@.spec_bytes());
        Ok(())
    }

    /// Appends what follows the properties: client identifier, will, user
    /// name, password.
    #[verifier::rlimit(50)]
    fn encode_payload(&self, out: &mut Vec<u8>)
        requires
            self@.fits(),
        ensures
            final(out)@ == old(out)@ + self@.spec_payload_bytes(),
    {
        let r0 = write_string(out, self.client_id.as_str());
        let ghost mut tail = spec_string_bytes(self@.client_id);
        let ghost head = old(out)@;
        assert(out@ =~= head + tail);
        match &self.last_will {
            Some(w) => {
                w.encode(out);
                proof {
                    tail = tail + w@.spec_bytes();
                }
            },
            None => {
                proof {
                    tail = tail + Seq::<u8>::empty();
                }
            },
        }
        assert(out@ =~= head + tail);
        match &self.username {
            Some(u) => {
                let r2 = write_string(out, u.as_str());
                proof {
                    tail = tail + spec_string_bytes(u@);
                }
            },
            None => {
                proof {
                    tail = tail + Seq::<u8>::empty();
                }
            },
        }
        assert(out@ =~= head + tail);
        match &self.password {
            Some(p) => {
                let r3 = write_bytes(out, bytes_as_slice(p));
                proof {
                    tail = tail + spec_field_bytes(bytes_contents(*p));
                }
            },
            None => {
                proof {
                    tail = tail + Seq::<u8>::empty();
                }
            },
        }
        assert(out@ =~= head + tail);
        assert(tail == self@.spec_payload_bytes());
    }

    /// The number of bytes of the packet's body, if every part has an
    /// encoding.
    pub fn encode_len(&self) -> (res: Result<usize, ErrorV5>)
        ensures
            match res {
                Ok(n) => self@.fits() && n == self@.spec_bytes().len(),
                Err(e) => e == ErrorV5::Common(Error::PayloadTooLong) && !self@.fits(),
            },
    {
        let mut scratch: Vec<u8> = Vec::new();
        self.encode(&mut scratch)?;
        assert(scratch@ =~= self@.spec_bytes());
        Ok(scratch.len())
    }
}

/// Body of a connack packet.
#[derive(Debug, Clone, PartialEq, Eq)]
pub struct Connack {
    pub session_present: bool,
    pub reason_code: ConnectReasonCode,
    pub properties: Properties,
}

/// Mathematical model of [`Connack`].
pub struct ConnackView {
    pub session_present: bool,
    pub reason_code: ConnectReasonCode,
    pub properties: Seq<PropertyView>,
}

impl View for Connack {
    type V = ConnackView;

    open spec fn view(&self) -> ConnackView {
        ConnackView {
            session_present: self.session_present,
            reason_code: self.reason_code,
            properties: self.properties@,
        }
    }
}

impl ConnackView {
    /// The parser behind [`Connack::decode`]: a flags byte that is 0 or 1,
    /// the reason code, the properties.
    pub open spec fn spec_decode(s: Seq<u8>, off: int) -> Result<(ConnackView, int), ErrorV5View> {
        match spec_read_u8(s, off) {
            Err(e) => Err(ErrorV5View::Common(e)),
            Ok((flags, off1)) => if flags > 1 {
                Err(ErrorV5View::Common(ErrorView::InvalidConnackFlags(flags)))
            } else {
                match spec_read_u8(s, off1) {
                    Err(e) => Err(ErrorV5View::Common(e)),
                    Ok((byte, off2)) => match ConnectReasonCode::spec_from_u8(byte) {
                        None => Err(ErrorV5View::InvalidReasonCode(PacketType::Connack, byte)),
                        Some(reason_code) => match spec_read_properties(
                            s,
                            off2,
                            PropertyScope::Connack,
                        ) {
                            Err(e) => Err(e),
                            Ok((properties, off3)) => Ok(
                                (
                                    ConnackView {
                                        session_present: flags == 1,
                                        reason_code,
                                        properties,
                                    },
                                    off3,
                                ),
                            ),
                        },
                    },
                }
            },
        }
    }

    /// The body: flags, reason code, properties.
    pub open spec fn spec_bytes(self) -> Seq<u8> {
        seq![if self.session_present {
            1u8
        } else {
            0u8
        }, self.reason_code.spec_to_u8()] + spec_properties_bytes(self.properties)
    }

    /// The properties have an encoding.
    pub open spec fn fits(self) -> bool {
        spec_items_fit(self.properties)
    }
}

impl Connack {
    /// A connack body without properties.
    pub fn new(session_present: bool, reason_code: ConnectReasonCode) -> (c: Connack)
        ensures
            c@ == (ConnackView { session_present, reason_code, properties: Seq::empty() }),
    {
        Connack { session_present, reason_code, properties: Properties::new() }
    }

    /// Reads the body of a connack packet at `offset`.
    pub fn decode(buf: &[u8], offset: &mut usize) -> (res: Result<Connack, ErrorV5>)
        ensures
            read_agrees5(res, *final(offset), ConnackView::spec_decode(buf@, *old(offset) as int)),
    {
        let flags = lift(read_u8(buf, offset))?;
        if flags > 1 {
            return Err(ErrorV5::Common(Error::InvalidConnackFlags(flags)));
        }
        let byte = lift(read_u8(buf, offset))?;
        let reason_code = match ConnectReasonCode::from_u8(byte) {
            Some(c) => c,
            None => {
                return Err(ErrorV5::InvalidReasonCode(PacketType::Connack, byte));
            },
        };
        let properties = Properties::decode(buf, offset, PropertyScope::Connack)?;
        Ok(Connack { session_present: flags == 1, reason_code, properties })
    }

    /// Appends the body of the packet, or fails with `PayloadTooLong`,
    /// leaving `out` as it was, where the properties have no encoding.
    pub fn encode(&self, out: &mut Vec<u8>) -> (res: Result<(), ErrorV5>)
        ensures
            match res {
                Ok(_) => self@.fits() && final(out)@ == old(out)@ + self@.spec_bytes(),
                Err(e) => e == ErrorV5::Common(Error::PayloadTooLong) && !self@.fits() && final(out)@
                    == old(out)@,
            },
    {
        if self.properties.checked_len().is_none() {
            return Err(ErrorV5::Common(Error::PayloadTooLong));
        }
        write_u8(out, if self.session_present {
            1
        } else {
            0
        });
        write_u8(out, self.reason_code.to_u8());
        let r = self.properties.encode(out);
        assert(out@ =~= old(out)@ + self@.spec_bytes());
        Ok(())
    }

    /// The number of bytes of the packet's body, if the properties have an
    /// encoding.
    pub fn encode_len(&self) -> (res: Result<usize, ErrorV5>)
        ensures
            match res {
                Ok(n) => self@.fits() && n == self@.spec_bytes().len(),
                Err(e) => e == ErrorV5::Common(Error::PayloadTooLong) && !self@.fits(),
            },
    {
        let mut scratch: Vec<u8> = Vec::new();
        self.encode(&mut scratch)?;
        assert(scratch@ =~= self@.spec_bytes());
        Ok(scratch.len())
    }
}

/// Mathematical model of a disconnect or auth packet. The reason code
/// stands as its byte.
pub struct ReasonView {
    pub reason_code: u8,
    pub properties: Seq<PropertyView>,
}

/// Whether `byte` is a reason code of a disconnect or auth packet.
pub open spec fn spec_reason_ok(typ: PacketType, byte: u8) -> bool {
    match typ {
        PacketType::Disconnect => DisconnectReasonCode::spec_from_u8(byte) is Some,
        PacketType::Auth => AuthReasonCode::spec_from_u8(byte) is Some,
        _ => false,
    }
}

/// The place of the properties of a disconnect or auth packet.
pub open spec fn spec_reason_scope(typ: PacketType) -> PropertyScope {
    match typ {
        PacketType::Disconnect => PropertyScope::Disconnect,
        _ => PropertyScope::Auth,
    }
}

impl ReasonView {
    /// The body: the reason code, left out where it is zero and there are
    /// no properties; then the properties, left out where there are none.
    pub open spec fn spec_bytes(self) -> Seq<u8> {
        if self.properties.len() == 0 {
            if self.reason_code == 0 {
                Seq::empty()
            } else {
                seq![self.reason_code]
            }
        } else {
            seq![self.reason_code] + spec_properties_bytes(self.properties)
        }
    }

    /// The properties have an encoding.
    pub open spec fn fits(self) -> bool {
        self.properties.len() == 0 || spec_items_fit(self.properties)
    }

    /// The parser of disconnect and auth packets. With a remaining length
    /// of 0 the reason code is zero and there are no properties; with 1
    /// there is a reason code and no properties; above, both.
    pub open spec fn spec_decode(s: Seq<u8>, off: int, remaining_len: int, typ: PacketType) -> Result<
        (ReasonView, int),
        ErrorV5View,
    > {
        if remaining_len == 0 {
            Ok((ReasonView { reason_code: 0, properties: Seq::empty() }, off))
        } else {
            match spec_read_u8(s, off) {
                Err(e) => Err(ErrorV5View::Common(e)),
                Ok((byte, off1)) => if !spec_reason_ok(typ, byte) {
                    Err(ErrorV5View::InvalidReasonCode(typ, byte))
                } else if remaining_len == 1 {
                    Ok((ReasonView { reason_code: byte, properties: Seq::empty() }, off1))
                } else {
                    match spec_read_properties(s, off1, spec_reason_scope(typ)) {
                        Err(e) => Err(e),
                        Ok((properties, off2)) => Ok(
                            (ReasonView { reason_code: byte, properties }, off2),
                        ),
                    }
                },
            }
        }
    }
}

/// Whether `byte` is a reason code of a disconnect or auth packet.
fn reason_ok(typ: PacketType, byte: u8) -> (b: bool)
    ensures
        b == spec_reason_ok(typ, byte),
{
    match typ {
        PacketType::Disconnect => DisconnectReasonCode::from_u8(byte).is_some(),
        PacketType::Auth => AuthReasonCode::from_u8(byte).is_some(),
        _ => false,
    }
}

/// Reads a disconnect or auth packet: byte of the reason code, properties.
fn decode_reason(buf: &[u8], offset: &mut usize, remaining_len: u32, typ: PacketType) -> (res:
    Result<(u8, Properties), ErrorV5>)
    ensures
        match ReasonView::spec_decode(buf@, *old(offset) as int, remaining_len as int, typ) {
            Ok((v, end)) => res is Ok && *final(offset) == end && res->Ok_0.0 == v.reason_code
                && res->Ok_0.1@ == v.properties && (spec_reason_ok(typ, v.reason_code)
                || v.reason_code == 0),
            Err(e) => res is Err && res->Err_0@ == e,
        },
{
    if remaining_len == 0 {
        return Ok((0, Properties::new()));
    }
    let byte = lift(read_u8(buf, offset))?;
    if !reason_ok(typ, byte) {
        return Err(ErrorV5::InvalidReasonCode(typ, byte));
    }
    if remaining_len == 1 {
        return Ok((byte, Properties::new()));
    }
    let scope = match typ {
        PacketType::Disconnect => PropertyScope::Disconnect,
        _ => PropertyScope::Auth,
    };
    let props = Properties::decode(buf, offset, scope)?;
    Ok((byte, props))
}

/// Appends a disconnect or auth packet.
fn encode_reason(out: &mut Vec<u8>, code: u8, props: &Properties) -> (res: Result<(), ErrorV5>)
    ensures
        ({
            let v = ReasonView { reason_code: code, properties: props@ };
            match res {
                Ok(_) => v.fits() && final(out)@ == old(out)@ + v.spec_bytes(),
                Err(e) => e == ErrorV5::Common(Error::PayloadTooLong) && !v.fits() && final(out)@
                    == old(out)@,
            }
        }),
{
    if props.is_empty() {
        if code != 0 {
            write_u8(out, code);
        }
        assert(out@ =~= old(out)@ + (if code == 0 {
            Seq::<u8>::empty()
        } else {
            seq![code]
        }));
        Ok(())
    } else {
        if props.checked_len().is_none() {
            return Err(ErrorV5::Common(Error::PayloadTooLong));
        }
        write_u8(out, code);
        let r = props.encode(out);
        assert(out@ =~= old(out)@ + (seq![code] + spec_properties_bytes(props@)));
        Ok(())
    }
}

/// Reason code of a connack packet.
#[derive(Debug, Clone, Copy, PartialEq, Eq, Structural, Hash)]
pub enum ConnectReasonCode {
    Success,
    UnspecifiedError,
    MalformedPacket,
    ProtocolError,
    ImplementationSpecificError,
    UnsupportedProtocolVersion,
    ClientIdentifierNotValid,
    BadUserNameOrPassword,
    NotAuthorized,
    ServerUnavailable,
    ServerBusy,
    Banned,
    BadAuthMethod,
    TopicNameInvalid,
    PacketTooLarge,
    QuotaExceeded,
    PayloadFormatInvalid,
    RetainNotSupported,
    QoSNotSupported,
    UseAnotherServer,
    ServerMoved,
    ConnectionRateExceeded,
}

impl View for ConnectReasonCode {
    type V = ConnectReasonCode;

    open spec fn view(&self) -> ConnectReasonCode {
        *self
    }
}

impl ConnectReasonCode {
    /// The code with the given byte, if the byte is one of this set.
    pub open spec fn spec_from_u8(value: u8) -> Option<ConnectReasonCode> {
        match value {
            0x00 => Some(ConnectReasonCode::Success),
            0x80 => Some(ConnectReasonCode::UnspecifiedError),
            0x81 => Some(ConnectReasonCode::MalformedPacket),
            0x82 => Some(ConnectReasonCode::ProtocolError),
            0x83 => Some(ConnectReasonCode::ImplementationSpecificError),
            0x84 => Some(ConnectReasonCode::UnsupportedProtocolVersion),
            0x85 => Some(ConnectReasonCode::ClientIdentifierNotValid),
            0x86 => Some(ConnectReasonCode::BadUserNameOrPassword),
            0x87 => Some(ConnectReasonCode::NotAuthorized),
            0x88 => Some(ConnectReasonCode::ServerUnavailable),
            0x89 => Some(ConnectReasonCode::ServerBusy),
            0x8A => Some(ConnectReasonCode::Banned),
            0x8C => Some(ConnectReasonCode::BadAuthMethod),
            0x90 => Some(ConnectReasonCode::TopicNameInvalid),
            0x95 => Some(ConnectReasonCode::PacketTooLarge),
            0x97 => Some(ConnectReasonCode::QuotaExceeded),
            0x99 => Some(ConnectReasonCode::PayloadFormatInvalid),
            0x9A => Some(ConnectReasonCode::RetainNotSupported),
            0x9B => Some(ConnectReasonCode::QoSNotSupported),
            0x9C => Some(ConnectReasonCode::UseAnotherServer),
            0x9D => Some(ConnectReasonCode::ServerMoved),
            0x9F => Some(ConnectReasonCode::ConnectionRateExceeded),
            _ => None,
        }
    }

    /// The code's byte on the wire.
    pub open spec fn spec_to_u8(self) -> u8 {
        match self {
            ConnectReasonCode::Success => 0x00,
            ConnectReasonCode::UnspecifiedError => 0x80,
            ConnectReasonCode::MalformedPacket => 0x81,
            ConnectReasonCode::ProtocolError => 0x82,
            ConnectReasonCode::ImplementationSpecificError => 0x83,
            ConnectReasonCode::UnsupportedProtocolVersion => 0x84,
            ConnectReasonCode::ClientIdentifierNotValid => 0x85,
            ConnectReasonCode::BadUserNameOrPassword => 0x86,
            ConnectReasonCode::NotAuthorized => 0x87,
            ConnectReasonCode::ServerUnavailable => 0x88,
            ConnectReasonCode::ServerBusy => 0x89,
            ConnectReasonCode::Banned => 0x8A,
            ConnectReasonCode::BadAuthMethod => 0x8C,
            ConnectReasonCode::TopicNameInvalid => 0x90,
            ConnectReasonCode::PacketTooLarge => 0x95,
            ConnectReasonCode::QuotaExceeded => 0x97,
            ConnectReasonCode::PayloadFormatInvalid => 0x99,
            ConnectReasonCode::RetainNotSupported => 0x9A,
            ConnectReasonCode::QoSNotSupported => 0x9B,
            ConnectReasonCode::UseAnotherServer => 0x9C,
            ConnectReasonCode::ServerMoved => 0x9D,
            ConnectReasonCode::ConnectionRateExceeded => 0x9F,
        }
    }

    /// The code with the given byte, if the byte is one of this set.
    pub fn from_u8(value: u8) -> (res: Option<ConnectReasonCode>)
        ensures
            res == Self::spec_from_u8(value),
            res matches Some(c) ==> c.spec_to_u8() == value,
    {
        match value {
            0x00 => Some(ConnectReasonCode::Success),
            0x80 => Some(ConnectReasonCode::UnspecifiedError),
            0x81 => Some(ConnectReasonCode::MalformedPacket),
            0x82 => Some(ConnectReasonCode::ProtocolError),
            0x83 => Some(ConnectReasonCode::ImplementationSpecificError),
            0x84 => Some(ConnectReasonCode::UnsupportedProtocolVersion),
            0x85 => Some(ConnectReasonCode::ClientIdentifierNotValid),
            0x86 => Some(ConnectReasonCode::BadUserNameOrPassword),
            0x87 => Some(ConnectReasonCode::NotAuthorized),
            0x88 => Some(ConnectReasonCode::ServerUnavailable),
            0x89 => Some(ConnectReasonCode::ServerBusy),
            0x8A => Some(ConnectReasonCode::Banned),
            0x8C => Some(ConnectReasonCode::BadAuthMethod),
            0x90 => Some(ConnectReasonCode::TopicNameInvalid),
            0x95 => Some(ConnectReasonCode::PacketTooLarge),
            0x97 => Some(ConnectReasonCode::QuotaExceeded),
            0x99 => Some(ConnectReasonCode::PayloadFormatInvalid),
            0x9A => Some(ConnectReasonCode::RetainNotSupported),
            0x9B => Some(ConnectReasonCode::QoSNotSupported),
            0x9C => Some(ConnectReasonCode::UseAnotherServer),
            0x9D => Some(ConnectReasonCode::ServerMoved),
            0x9F => Some(ConnectReasonCode::ConnectionRateExceeded),
            _ => None,
        }
    }

    /// The code's byte on the wire.
    #[verifier::when_used_as_spec(spec_to_u8)]
    pub fn to_u8(self) -> (b: u8)
        ensures
            b == self.spec_to_u8(),
            Self::spec_from_u8(b) == Some(self),
    {
        match self {
            ConnectReasonCode::Success => 0x00,
            ConnectReasonCode::UnspecifiedError => 0x80,
            ConnectReasonCode::MalformedPacket => 0x81,
            ConnectReasonCode::ProtocolError => 0x82,
            ConnectReasonCode::ImplementationSpecificError => 0x83,
            ConnectReasonCode::UnsupportedProtocolVersion => 0x84,
            ConnectReasonCode::ClientIdentifierNotValid => 0x85,
            ConnectReasonCode::BadUserNameOrPassword => 0x86,
            ConnectReasonCode::NotAuthorized => 0x87,
            ConnectReasonCode::ServerUnavailable => 0x88,
            ConnectReasonCode::ServerBusy => 0x89,
            ConnectReasonCode::Banned => 0x8A,
            ConnectReasonCode::BadAuthMethod => 0x8C,
            ConnectReasonCode::TopicNameInvalid => 0x90,
            ConnectReasonCode::PacketTooLarge => 0x95,
            ConnectReasonCode::QuotaExceeded => 0x97,
            ConnectReasonCode::PayloadFormatInvalid => 0x99,
            ConnectReasonCode::RetainNotSupported => 0x9A,
            ConnectReasonCode::QoSNotSupported => 0x9B,
            ConnectReasonCode::UseAnotherServer => 0x9C,
            ConnectReasonCode::ServerMoved => 0x9D,
            ConnectReasonCode::ConnectionRateExceeded => 0x9F,
        }
    }
}

/// Body of a disconnect packet.
#[derive(Debug, Clone, PartialEq, Eq)]
pub struct Disconnect {
    pub reason_code: DisconnectReasonCode,
    pub properties: Properties,
}

impl View for Disconnect {
    type V = ReasonView;

    open spec fn view(&self) -> ReasonView {
        ReasonView { reason_code: self.reason_code.spec_to_u8(), properties: self.properties@ }
    }
}

impl Disconnect {
    /// A disconnect packet without properties.
    pub fn new(reason_code: DisconnectReasonCode) -> (p: Disconnect)
        ensures
            p@ == (ReasonView { reason_code: reason_code.spec_to_u8(), properties: Seq::empty() }),
    {
        Disconnect { reason_code, properties: Properties::new() }
    }

    /// A disconnect packet with reason code zero and no properties: what a
    /// packet without a body stands for.
    pub fn new_normal() -> (p: Disconnect)
        ensures
            p@ == (ReasonView { reason_code: 0, properties: Seq::empty() }),
    {
        Self::new(DisconnectReasonCode::NormalDisconnect)
    }

    /// Reads the body of a disconnect packet at `offset`, in the form that
    /// the remaining length of `header` selects. `InvalidReasonCode` for a
    /// byte outside the set of [`DisconnectReasonCode`].
    pub fn decode(buf: &[u8], offset: &mut usize, header: Header) -> (res: Result<Disconnect, ErrorV5>)
        ensures
            read_agrees5(
                res,
                *final(offset),
                ReasonView::spec_decode(
                    buf@,
                    *old(offset) as int,
                    header.remaining_len as int,
                    PacketType::Disconnect,
                ),
            ),
    {
        let (byte, properties) = decode_reason(
            buf,
            offset,
            header.remaining_len,
            PacketType::Disconnect,
        )?;
        let reason_code = match DisconnectReasonCode::from_u8(byte) {
            Some(c) => c,
            None => {
                return Err(ErrorV5::InvalidReasonCode(PacketType::Disconnect, byte));
            },
        };
        Ok(Disconnect { reason_code, properties })
    }

    /// Appends the body of the packet, or fails with `PayloadTooLong`,
    /// leaving `out` as it was, where the properties have no encoding.
    pub fn encode(&self, out: &mut Vec<u8>) -> (res: Result<(), ErrorV5>)
        ensures
            match res {
                Ok(_) => self@.fits() && final(out)@ == old(out)@ + self@.spec_bytes(),
                Err(e) => e == ErrorV5::Common(Error::PayloadTooLong) && !self@.fits() && final(out)@
                    == old(out)@,
            },
    {
        encode_reason(out, self.reason_code.to_u8(), &self.properties)
    }

    /// The number of bytes of the packet's body, if the properties have an
    /// encoding.
    pub fn encode_len(&self) -> (res: Result<usize, ErrorV5>)
        ensures
            match res {
                Ok(n) => self@.fits() && n == self@.spec_bytes().len(),
                Err(e) => e == ErrorV5::Common(Error::PayloadTooLong) && !self@.fits(),
            },
    {
        let mut scratch: Vec<u8> = Vec::new();
        self.encode(&mut scratch)?;
        assert(scratch@ =~= self@.spec_bytes());
        Ok(scratch.len())
    }
}

/// Reason code of a disconnect packet.
#[derive(Debug, Clone, Copy, PartialEq, Eq, Structural, Hash)]
pub enum DisconnectReasonCode {
    NormalDisconnect,
    DisconnectWithWillMessage,
    UnspecifiedError,
    MalformedPacket,
    ProtocolError,
    ImplementationSpecificError,
    NotAuthorized,
    ServerBusy,
    ServerShuttingDown,
    KeepAliveTimeout,
    SessionTakenOver,
    TopicFilterInvalid,
    TopicNameInvalid,
    ReceiveMaximumExceeded,
    TopicAliasInvalid,
    PacketTooLarge,
    MessageRateTooHigh,
    QuotaExceeded,
    AdministrativeAction,
    PayloadFormatInvalid,
    RetainNotSupported,
    QoSNotSupported,
    UseAnotherServer,
    ServerMoved,
    SharedSubscriptionNotSupported,
    ConnectionRateExceeded,
    MaximumConnectTime,
    SubscriptionIdentifiersNotSupported,
    WildcardSubscriptionsNotSupported,
}

impl View for DisconnectReasonCode {
    type V = DisconnectReasonCode;

    open spec fn view(&self) -> DisconnectReasonCode {
        *self
    }
}

impl DisconnectReasonCode {
    /// The code with the given byte, if the byte is one of this set.
    pub open spec fn spec_from_u8(value: u8) -> Option<DisconnectReasonCode> {
        match value {
            0x00 => Some(DisconnectReasonCode::NormalDisconnect),
            0x04 => Some(DisconnectReasonCode::DisconnectWithWillMessage),
            0x80 => Some(DisconnectReasonCode::UnspecifiedError),
            0x81 => Some(DisconnectReasonCode::MalformedPacket),
            0x82 => Some(DisconnectReasonCode::ProtocolError),
            0x83 => Some(DisconnectReasonCode::ImplementationSpecificError),
            0x87 => Some(DisconnectReasonCode::NotAuthorized),
            0x89 => Some(DisconnectReasonCode::ServerBusy),
            0x8B => Some(DisconnectReasonCode::ServerShuttingDown),
            0x8D => Some(DisconnectReasonCode::KeepAliveTimeout),
            0x8E => Some(DisconnectReasonCode::SessionTakenOver),
            0x8F => Some(DisconnectReasonCode::TopicFilterInvalid),
            0x90 => Some(DisconnectReasonCode::TopicNameInvalid),
            0x93 => Some(DisconnectReasonCode::ReceiveMaximumExceeded),
            0x94 => Some(DisconnectReasonCode::TopicAliasInvalid),
            0x95 => Some(DisconnectReasonCode::PacketTooLarge),
            0x96 => Some(DisconnectReasonCode::MessageRateTooHigh),
            0x97 => Some(DisconnectReasonCode::QuotaExceeded),
            0x98 => Some(DisconnectReasonCode::AdministrativeAction),
            0x99 => Some(DisconnectReasonCode::PayloadFormatInvalid),
            0x9A => Some(DisconnectReasonCode::RetainNotSupported),
            0x9B => Some(DisconnectReasonCode::QoSNotSupported),
            0x9C => Some(DisconnectReasonCode::UseAnotherServer),
            0x9D => Some(DisconnectReasonCode::ServerMoved),
            0x9E => Some(DisconnectReasonCode::SharedSubscriptionNotSupported),
            0x9F => Some(DisconnectReasonCode::ConnectionRateExceeded),
            0xA0 => Some(DisconnectReasonCode::MaximumConnectTime),
            0xA1 => Some(DisconnectReasonCode::SubscriptionIdentifiersNotSupported),
            0xA2 => Some(DisconnectReasonCode::WildcardSubscriptionsNotSupported),
            _ => None,
        }
    }

    /// The code's byte on the wire.
    pub open spec fn spec_to_u8(self) -> u8 {
        match self {
            DisconnectReasonCode::NormalDisconnect => 0x00,
            DisconnectReasonCode::DisconnectWithWillMessage => 0x04,
            DisconnectReasonCode::UnspecifiedError => 0x80,
            DisconnectReasonCode::MalformedPacket => 0x81,
            DisconnectReasonCode::ProtocolError => 0x82,
            DisconnectReasonCode::ImplementationSpecificError => 0x83,
            DisconnectReasonCode::NotAuthorized => 0x87,
            DisconnectReasonCode::ServerBusy => 0x89,
            DisconnectReasonCode::ServerShuttingDown => 0x8B,
            DisconnectReasonCode::KeepAliveTimeout => 0x8D,
            DisconnectReasonCode::SessionTakenOver => 0x8E,
            DisconnectReasonCode::TopicFilterInvalid => 0x8F,
            DisconnectReasonCode::TopicNameInvalid => 0x90,
            DisconnectReasonCode::ReceiveMaximumExceeded => 0x93,
            DisconnectReasonCode::TopicAliasInvalid => 0x94,
            DisconnectReasonCode::PacketTooLarge => 0x95,
            DisconnectReasonCode::MessageRateTooHigh => 0x96,
            DisconnectReasonCode::QuotaExceeded => 0x97,
            DisconnectReasonCode::AdministrativeAction => 0x98,
            DisconnectReasonCode::PayloadFormatInvalid => 0x99,
            DisconnectReasonCode::RetainNotSupported => 0x9A,
            DisconnectReasonCode::QoSNotSupported => 0x9B,
            DisconnectReasonCode::UseAnotherServer => 0x9C,
            DisconnectReasonCode::ServerMoved => 0x9D,
            DisconnectReasonCode::SharedSubscriptionNotSupported => 0x9E,
            DisconnectReasonCode::ConnectionRateExceeded => 0x9F,
            DisconnectReasonCode::MaximumConnectTime => 0xA0,
            DisconnectReasonCode::SubscriptionIdentifiersNotSupported => 0xA1,
            DisconnectReasonCode::WildcardSubscriptionsNotSupported => 0xA2,
        }
    }

    /// The code with the given byte, if the byte is one of this set.
    pub fn from_u8(value: u8) -> (res: Option<DisconnectReasonCode>)
        ensures
            res == Self::spec_from_u8(value),
            res matches Some(c) ==> c.spec_to_u8() == value,
    {
        match value {
            0x00 => Some(DisconnectReasonCode::NormalDisconnect),
            0x04 => Some(DisconnectReasonCode::DisconnectWithWillMessage),
            0x80 => Some(DisconnectReasonCode::UnspecifiedError),
            0x81 => Some(DisconnectReasonCode::MalformedPacket),
            0x82 => Some(DisconnectReasonCode::ProtocolError),
            0x83 => Some(DisconnectReasonCode::ImplementationSpecificError),
            0x87 => Some(DisconnectReasonCode::NotAuthorized),
            0x89 => Some(DisconnectReasonCode::ServerBusy),
            0x8B => Some(DisconnectReasonCode::ServerShuttingDown),
            0x8D => Some(DisconnectReasonCode::KeepAliveTimeout),
            0x8E => Some(DisconnectReasonCode::SessionTakenOver),
            0x8F => Some(DisconnectReasonCode::TopicFilterInvalid),
            0x90 => Some(DisconnectReasonCode::TopicNameInvalid),
            0x93 => Some(DisconnectReasonCode::ReceiveMaximumExceeded),
            0x94 => Some(DisconnectReasonCode::TopicAliasInvalid),
            0x95 => Some(DisconnectReasonCode::PacketTooLarge),
            0x96 => Some(DisconnectReasonCode::MessageRateTooHigh),
            0x97 => Some(DisconnectReasonCode::QuotaExceeded),
            0x98 => Some(DisconnectReasonCode::AdministrativeAction),
            0x99 => Some(DisconnectReasonCode::PayloadFormatInvalid),
            0x9A => Some(DisconnectReasonCode::RetainNotSupported),
            0x9B => Some(DisconnectReasonCode::QoSNotSupported),
            0x9C => Some(DisconnectReasonCode::UseAnotherServer),
            0x9D => Some(DisconnectReasonCode::ServerMoved),
            0x9E => Some(DisconnectReasonCode::SharedSubscriptionNotSupported),
            0x9F => Some(DisconnectReasonCode::ConnectionRateExceeded),
            0xA0 => Some(DisconnectReasonCode::MaximumConnectTime),
            0xA1 => Some(DisconnectReasonCode::SubscriptionIdentifiersNotSupported),
            0xA2 => Some(DisconnectReasonCode::WildcardSubscriptionsNotSupported),
            _ => None,
        }
    }

    /// The code's byte on the wire.
    #[verifier::when_used_as_spec(spec_to_u8)]
    pub fn to_u8(self) -> (b: u8)
        ensures
            b == self.spec_to_u8(),
            Self::spec_from_u8(b) == Some(self),
    {
        match self {
            DisconnectReasonCode::NormalDisconnect => 0x00,
            DisconnectReasonCode::DisconnectWithWillMessage => 0x04,
            DisconnectReasonCode::UnspecifiedError => 0x80,
            DisconnectReasonCode::MalformedPacket => 0x81,
            DisconnectReasonCode::ProtocolError => 0x82,
            DisconnectReasonCode::ImplementationSpecificError => 0x83,
            DisconnectReasonCode::NotAuthorized => 0x87,
            DisconnectReasonCode::ServerBusy => 0x89,
            DisconnectReasonCode::ServerShuttingDown => 0x8B,
            DisconnectReasonCode::KeepAliveTimeout => 0x8D,
            DisconnectReasonCode::SessionTakenOver => 0x8E,
            DisconnectReasonCode::TopicFilterInvalid => 0x8F,
            DisconnectReasonCode::TopicNameInvalid => 0x90,
            DisconnectReasonCode::ReceiveMaximumExceeded => 0x93,
            DisconnectReasonCode::TopicAliasInvalid => 0x94,
            DisconnectReasonCode::PacketTooLarge => 0x95,
            DisconnectReasonCode::MessageRateTooHigh => 0x96,
            DisconnectReasonCode::QuotaExceeded => 0x97,
            DisconnectReasonCode::AdministrativeAction => 0x98,
            DisconnectReasonCode::PayloadFormatInvalid => 0x99,
            DisconnectReasonCode::RetainNotSupported => 0x9A,
            DisconnectReasonCode::QoSNotSupported => 0x9B,
            DisconnectReasonCode::UseAnotherServer => 0x9C,
            DisconnectReasonCode::ServerMoved => 0x9D,
            DisconnectReasonCode::SharedSubscriptionNotSupported => 0x9E,
            DisconnectReasonCode::ConnectionRateExceeded => 0x9F,
            DisconnectReasonCode::MaximumConnectTime => 0xA0,
            DisconnectReasonCode::SubscriptionIdentifiersNotSupported => 0xA1,
            DisconnectReasonCode::WildcardSubscriptionsNotSupported => 0xA2,
        }
    }
}

/// Body of an auth packet.
#[derive(Debug, Clone, PartialEq, Eq)]
pub struct Auth {
    pub reason_code: AuthReasonCode,
    pub properties: Properties,
}

impl View for Auth {
    type V = ReasonView;

    open spec fn view(&self) -> ReasonView {
        ReasonView { reason_code: self.reason_code.spec_to_u8(), properties: self.properties@ }
    }
}

impl Auth {
    /// An auth packet without properties.
    pub fn new(reason_code: AuthReasonCode) -> (p: Auth)
        ensures
            p@ == (ReasonView { reason_code: reason_code.spec_to_u8(), properties: Seq::empty() }),
    {
        Auth { reason_code, properties: Properties::new() }
    }

    /// An auth packet with reason code zero and no properties: what a
    /// packet without a body stands for.
    pub fn new_success() -> (p: Auth)
        ensures
            p@ == (ReasonView { reason_code: 0, properties: Seq::empty() }),
    {
        Self::new(AuthReasonCode::Success)
    }

    /// Reads the body of an auth packet at `offset`, in the form that
    /// the remaining length of `header` selects. `InvalidReasonCode` for a
    /// byte outside the set of [`AuthReasonCode`].
    pub fn decode(buf: &[u8], offset: &mut usize, header: Header) -> (res: Result<Auth, ErrorV5>)
        ensures
            read_agrees5(
                res,
                *final(offset),
                ReasonView::spec_decode(
                    buf@,
                    *old(offset) as int,
                    header.remaining_len as int,
                    PacketType::Auth,
                ),
            ),
    {
        let (byte, properties) = decode_reason(
            buf,
            offset,
            header.remaining_len,
            PacketType::Auth,
        )?;
        let reason_code = match AuthReasonCode::from_u8(byte) {
            Some(c) => c,
            None => {
                return Err(ErrorV5::InvalidReasonCode(PacketType::Auth, byte));
            },
        };
        Ok(Auth { reason_code, properties })
    }

    /// Appends the body of the packet, or fails with `PayloadTooLong`,
    /// leaving `out` as it was, where the properties have no encoding.
    pub fn encode(&self, out: &mut Vec<u8>) -> (res: Result<(), ErrorV5>)
        ensures
            match res {
                Ok(_) => self@.fits() && final(out)@ == old(out)@ + self@.spec_bytes(),
                Err(e) => e == ErrorV5::Common(Error::PayloadTooLong) && !self@.fits() && final(out)@
                    == old(out)@,
            },
    {
        encode_reason(out, self.reason_code.to_u8(), &self.properties)
    }

    /// The number of bytes of the packet's body, if the properties have an
    /// encoding.
    pub fn encode_len(&self) -> (res: Result<usize, ErrorV5>)
        ensures
            match res {
                Ok(n) => self@.fits() && n == self@.spec_bytes().len(),
                Err(e) => e == ErrorV5::Common(Error::PayloadTooLong) && !self@.fits(),
            },
    {
        let mut scratch: Vec<u8> = Vec::new();
        self.encode(&mut scratch)?;
        assert(scratch@ =~= self@.spec_bytes());
        Ok(scratch.len())
    }
}

/// Reason code of an auth packet.
#[derive(Debug, Clone, Copy, PartialEq, Eq, Structural, Hash)]
pub enum AuthReasonCode {
    Success,
    ContinueAuthentication,
    ReAuthenticate,
}

impl View for AuthReasonCode {
    type V = AuthReasonCode;

    open spec fn view(&self) -> AuthReasonCode {
        *self
    }
}

impl AuthReasonCode {
    /// The code with the given byte, if the byte is one of this set.
    pub open spec fn spec_from_u8(value: u8) -> Option<AuthReasonCode> {
        match value {
            0x00 => Some(AuthReasonCode::Success),
            0x18 => Some(AuthReasonCode::ContinueAuthentication),
            0x19 => Some(AuthReasonCode::ReAuthenticate),
            _ => None,
        }
    }

    /// The code's byte on the wire.
    pub open spec fn spec_to_u8(self) -> u8 {
        match self {
            AuthReasonCode::Success => 0x00,
            AuthReasonCode::ContinueAuthentication => 0x18,
            AuthReasonCode::ReAuthenticate => 0x19,
        }
    }

    /// The code with the given byte, if the byte is one of this set.
    pub fn from_u8(value: u8) -> (res: Option<AuthReasonCode>)
        ensures
            res == Self::spec_from_u8(value),
            res matches Some(c) ==> c.spec_to_u8() == value,
    {
        match value {
            0x00 => Some(AuthReasonCode::Success),
            0x18 => Some(AuthReasonCode::ContinueAuthentication),
            0x19 => Some(AuthReasonCode::ReAuthenticate),
            _ => None,
        }
    }

    /// The code's byte on the wire.
    #[verifier::when_used_as_spec(spec_to_u8)]
    pub fn to_u8(self) -> (b: u8)
        ensures
            b == self.spec_to_u8(),
            Self::spec_from_u8(b) == Some(self),
    {
        match self {
            AuthReasonCode::Success => 0x00,
            AuthReasonCode::ContinueAuthentication => 0x18,
            AuthReasonCode::ReAuthenticate => 0x19,
        }
    }
}

} // verus!
