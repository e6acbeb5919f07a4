//! Connect and connack.

use crate::common::error::{agrees, read_agrees, Error, ErrorView};
use crate::common::outside::{bytes_as_slice, bytes_contents, bytes_from_slice};
use crate::common::topic::{spec_topic_name, TopicName};
use crate::common::types::{Protocol, QoS};
use crate::common::utils::{
    read_bytes, read_opt_bytes, read_opt_string, read_string, read_u16, read_u8, spec_field_bytes,
    spec_read_bytes, spec_read_opt_bytes, spec_read_opt_string, spec_read_string, spec_read_u16,
    spec_read_u8, spec_string_bytes, spec_u16_bytes, write_bytes, write_string, write_u16, write_u8,
    FIELD_MAX,
};
use bytes::Bytes;
use vstd::prelude::*;
use vstd::utf8::encode_utf8;

verus! {

/// The message a server publishes when its client is lost.
#[derive(Debug, Clone, PartialEq, Eq)]
pub struct LastWill {
    pub qos: QoS,
    pub retain: bool,
    pub topic_name: TopicName,
    pub message: Bytes,
}

/// Mathematical model of [`LastWill`].
pub struct LastWillView {
    pub qos: QoS,
    pub retain: bool,
    pub topic_name: Seq<char>,
    pub message: Seq<u8>,
}

impl View for LastWill {
    type V = LastWillView;

    open spec fn view(&self) -> LastWillView {
        LastWillView {
            qos: self.qos,
            retain: self.retain,
            topic_name: self.topic_name@,
            message: bytes_contents(self.message),
        }
    }
}

impl LastWillView {
    /// The will's bytes in a connect packet: topic, then message.
    pub open spec fn spec_bytes(self) -> Seq<u8> {
        spec_string_bytes(self.topic_name) + spec_field_bytes(self.message)
    }

    /// The will's part of the connect flags.
    pub open spec fn spec_flags(self) -> int {
        4 + self.qos.spec_to_u8() * 8 + if self.retain {
            32int
        } else {
            0int
        }
    }

    /// The topic obeys the grammar and the message fits its length prefix.
    pub open spec fn wf(self) -> bool {
        &&& spec_topic_name(self.topic_name) is Ok
        &&& self.message.len() <= FIELD_MAX
    }
}

impl LastWill {
    /// A will that is not retained.
    pub fn new(qos: QoS, topic_name: TopicName, message: Bytes) -> (w: LastWill)
        ensures
            w@ == (LastWillView {
                qos,
                retain: false,
                topic_name: topic_name@,
                message: bytes_contents(message),
            }),
    {
        LastWill { qos, retain: false, topic_name, message }
    }

    /// Appends topic and message, or fails with `PayloadTooLong`, leaving
    /// `out` as it was, where the message has more than 65535 bytes.
    pub fn encode(&self, out: &mut Vec<u8>) -> (res: Result<(), Error>)
        ensures
            match res {
                Ok(_) => self@.message.len() <= FIELD_MAX && final(out)@ == old(out)@
                    + self@.spec_bytes(),
                Err(e) => e == Error::PayloadTooLong && self@.message.len() > FIELD_MAX
                    && final(out)@ == old(out)@,
            },
    {
        let message = bytes_as_slice(&self.message);
        if message.len() > FIELD_MAX {
            return Err(Error::PayloadTooLong);
        }
        let r1 = write_string(out, self.topic_name.as_str());
        let r2 = write_bytes(out, message);
        assert(out@ =~= old(out)@ + self@.spec_bytes());
        Ok(())
    }

    /// The number of bytes that [`LastWill::encode`] appends.
    pub fn encode_len(&self) -> (n: usize)
        requires
            self@.spec_bytes().len() <= usize::MAX,
        ensures
            n == self@.spec_bytes().len(),
    {
        4 + self.topic_name.len() + bytes_as_slice(&self.message).len()
    }
}

/// Body of a connect packet.
#[derive(Debug, Clone, PartialEq, Eq)]
pub struct Connect {
    pub protocol: Protocol,
    pub clean_session: bool,
    pub keep_alive: u16,
    pub client_id: String,
    pub last_will: Option<LastWill>,
    pub username: Option<String>,
    pub password: Option<Bytes>,
}

/// Mathematical model of [`Connect`].
pub struct ConnectView {
    pub protocol: Protocol,
    pub clean_session: bool,
    pub keep_alive: u16,
    pub client_id: Seq<char>,
    pub last_will: Option<LastWillView>,
    pub username: Option<Seq<char>>,
    pub password: Option<Seq<u8>>,
}

impl View for Connect {
    type V = ConnectView;

    open spec fn view(&self) -> ConnectView {
        ConnectView {
            protocol: self.protocol,
            clean_session: self.clean_session,
            keep_alive: self.keep_alive,
            client_id: self.client_id@,
            last_will: match self.last_will {
                Some(w) => Some(w@),
                None => None,
            },
            username: match self.username {
                Some(u) => Some(u@),
                None => None,
            },
            password: match self.password {
                Some(p) => Some(bytes_contents(p)),
                None => None,
            },
        }
    }
}

/// The will of a connect packet with the given flags, read at `off`: present
/// exactly where bit 2 is set. Without a will, the bits of its quality of
/// service and of retain must be clear.
pub open spec fn spec_read_last_will(s: Seq<u8>, off: int, flags: u8) -> Result<
    (Option<LastWillView>, int),
    ErrorView,
> {
    if (flags / 4) % 2 == 1 {
        match spec_read_string(s, off) {
            Err(e) => Err(e),
            Ok((topic, off1)) => match spec_read_bytes(s, off1) {
                Err(e) => Err(e),
                Ok((message, off2)) => match QoS::spec_from_u8((flags / 8) % 4) {
                    Err(e) => Err(e),
                    Ok(qos) => match spec_topic_name(topic) {
                        Err(e) => Err(e),
                        Ok(topic_name) => Ok(
                            (
                                Some(
                                    LastWillView {
                                        qos,
                                        retain: (flags / 32) % 2 == 1,
                                        topic_name,
                                        message,
                                    },
                                ),
                                off2,
                            ),
                        ),
                    },
                },
            },
        }
    } else if (flags / 8) % 8 != 0 {
        Err(ErrorView::InvalidConnectFlags(flags))
    } else {
        Ok((None, off))
    }
}

impl ConnectView {
    /// The connect flags: user name, password, will retain, will quality of
    /// service, will, clean session, and a reserved bit that is zero.
    pub open spec fn spec_flags(self) -> u8 {
        ((if self.clean_session {
            2int
        } else {
            0int
        }) + (match self.last_will {
            Some(w) => w.spec_flags(),
            None => 0int,
        }) + (if self.password is Some {
            64int
        } else {
            0int
        }) + (if self.username is Some {
            128int
        } else {
            0int
        })) as u8
    }

    /// The bytes behind the keep-alive: client identifier, will, user name,
    /// password.
    pub open spec fn spec_payload_bytes(self) -> Seq<u8> {
        spec_string_bytes(self.client_id) + (match self.last_will {
            Some(w) => w.spec_bytes(),
            None => Seq::empty(),
        }) + (match self.username {
            Some(u) => spec_string_bytes(u),
            None => Seq::empty(),
        }) + (match self.password {
            Some(p) => spec_field_bytes(p),
            None => Seq::empty(),
        })
    }

    /// The body of the connect packet.
    pub open spec fn spec_bytes(self) -> Seq<u8> {
        self.protocol.spec_bytes().push(self.spec_flags()) + spec_u16_bytes(self.keep_alive)
            + self.spec_payload_bytes()
    }

    /// Every length-prefixed field has at most 65535 bytes.
    pub open spec fn fits(self) -> bool {
        &&& encode_utf8(self.client_id).len() <= FIELD_MAX
        &&& self.last_will matches Some(w) ==> w.message.len() <= FIELD_MAX
        &&& self.username matches Some(u) ==> encode_utf8(u).len() <= FIELD_MAX
        &&& self.password matches Some(p) ==> p.len() <= FIELD_MAX
    }

    /// A connect packet this version can carry: a protocol below 5.0, fields
    /// that fit, and a will whose topic obeys the grammar.
    pub open spec fn wf(self) -> bool {
        &&& self.protocol != Protocol::V50
        &&& self.fits()
        &&& self.last_will matches Some(w) ==> w.wf()
    }

    /// The parser behind [`Connect::decode_buffer_with_protocol`]: what
    /// follows the protocol name and level.
    pub open spec fn spec_decode_with_protocol(s: Seq<u8>, off: int, protocol: Protocol) -> Result<
        (ConnectView, int),
        ErrorView,
    > {
        if protocol.spec_level() > 4 {
            Err(ErrorView::UnexpectedProtocol(protocol))
        } else {
            match spec_read_u8(s, off) {
                Err(e) => Err(e),
                Ok((flags, off1)) => if flags % 2 != 0 {
                    Err(ErrorView::InvalidConnectFlags(flags))
                } else {
                    match spec_read_u16(s, off1) {
                        Err(e) => Err(e),
                        Ok((keep_alive, off2)) => match spec_read_string(s, off2) {
                            Err(e) => Err(e),
                            Ok((client_id, off3)) => Self::spec_decode_payload(
                                s,
                                off3,
                                protocol,
                                flags,
                                keep_alive,
                                client_id,
                            ),
                        },
                    }
                },
            }
        }
    }

    /// The rest of the parser, behind the client identifier: will, user
    /// name, password.
    pub open spec fn spec_decode_payload(
        s: Seq<u8>,
        off: int,
        protocol: Protocol,
        flags: u8,
        keep_alive: u16,
        client_id: Seq<char>,
    ) -> Result<(ConnectView, int), ErrorView> {
        match spec_read_last_will(s, off, flags) {
            Err(e) => Err(e),
            Ok((last_will, off1)) => match spec_read_opt_string(s, off1, flags / 128 == 1) {
                Err(e) => Err(e),
                Ok((username, off2)) => match spec_read_opt_bytes(s, off2, (flags / 64) % 2 == 1) {
                    Err(e) => Err(e),
                    Ok((password, off3)) => Ok(
                        (
                            ConnectView {
                                protocol,
                                clean_session: (flags / 2) % 2 == 1,
                                keep_alive,
                                client_id,
                                last_will,
                                username,
                                password,
                            },
                            off3,
                        ),
                    ),
                },
            },
        }
    }

    /// The parser behind [`Connect::decode`]: protocol, then the rest.
    pub open spec fn spec_decode(s: Seq<u8>, off: int) -> Result<(ConnectView, int), ErrorView> {
        match Protocol::spec_decode(s, off) {
            Err(e) => Err(e),
            Ok((protocol, off1)) => Self::spec_decode_with_protocol(s, off1, protocol),
        }
    }
}

/// Reads the will of a connect packet with the given flags.
fn read_last_will(buf: &[u8], offset: &mut usize, flags: u8) -> (res: Result<
    Option<LastWill>,
    Error,
>)
    ensures
        match spec_read_last_will(buf@, *old(offset) as int, flags) {
            Ok((w, end)) => res is Ok && *final(offset) == end && match res->Ok_0 {
                Some(x) => w == Some(x@) && x.topic_name.wf(),
                None => w is None,
            },
            Err(e) => res is Err && res->Err_0@ == e,
        },
{
    if (flags / 4) % 2 == 1 {
        let topic = read_string(buf, offset)?;
        let message = read_bytes(buf, offset)?;
        let qos = QoS::from_u8((flags / 8) % 4)?;
        let retain = (flags / 32) % 2 == 1;
        let topic_name = TopicName::from_string(topic)?;
        Ok(Some(LastWill { qos, retain, topic_name, message: bytes_from_slice(message) }))
    } else if (flags / 8) % 8 != 0 {
        Err(Error::InvalidConnectFlags(flags))
    } else {
        Ok(None)
    }
}

impl Connect {
    /// A connect packet of protocol 3.1.1 with a clean session and neither
    /// will nor credentials.
    pub fn new(client_id: String, keep_alive: u16) -> (c: Connect)
        ensures
            c@ == (ConnectView {
                protocol: Protocol::V311,
                clean_session: true,
                keep_alive,
                client_id: client_id@,
                last_will: None,
                username: None,
                password: None,
            }),
    {
        Connect {
            protocol: Protocol::V311,
            clean_session: true,
            keep_alive,
            client_id,
            last_will: None,
            username: None,
            password: None,
        }
    }

    /// Reads the body of a connect packet at `offset`.
    pub fn decode(buf: &[u8], offset: &mut usize) -> (res: Result<Connect, Error>)
        ensures
            read_agrees(res, *final(offset), ConnectView::spec_decode(buf@, *old(offset) as int)),
    {
        let protocol = Protocol::decode(buf, offset)?;
        Self::decode_buffer_with_protocol(buf, offset, protocol)
    }

    /// Reads what follows the protocol name and level of a connect packet:
    /// `UnexpectedProtocol` for 5.0, `InvalidConnectFlags` where the
    /// reserved bit is set or the will's bits are set without a will.
    #[verifier::rlimit(50)]
    pub fn decode_buffer_with_protocol(buf: &[u8], offset: &mut usize, protocol: Protocol) -> (res:
        Result<Connect, Error>)
        ensures
            read_agrees(
                res,
                *final(offset),
                ConnectView::spec_decode_with_protocol(buf@, *old(offset) as int, protocol),
            ),
            protocol.spec_level() > 4 ==> *final(offset) == *old(offset),
    {
        if protocol.level() > 4 {
            return Err(Error::UnexpectedProtocol(protocol));
        }
        let flags: u8 = read_u8(buf, offset)?;
        if flags % 2 != 0 {
            return Err(Error::InvalidConnectFlags(flags));
        }
        let keep_alive = read_u16(buf, offset)?;
        let client_id = read_string(buf, offset)?;
        let last_will = read_last_will(buf, offset, flags)?;
        let username = read_opt_string(buf, offset, flags / 128 == 1)?;
        let password = read_opt_bytes(buf, offset, (flags / 64) % 2 == 1)?;
        let clean_session = (flags / 2) % 2 == 1;
        Ok(Connect { protocol, clean_session, keep_alive, client_id, last_will, username, password })
    }

    /// The connect flags.
    pub fn flags(&self) -> (f: u8)
        ensures
            f == self@.spec_flags(),
    {
        let mut f: u8 = 0;
        if self.clean_session {
            f = f + 2;
        }
        match &self.last_will {
            Some(w) => {
                f = f + 4 + w.qos.to_u8() * 8;
                if w.retain {
                    f = f + 32;
                }
            },
            None => {},
        }
        if self.password.is_some() {
            f = f + 64;
        }
        if self.username.is_some() {
            f = f + 128;
        }
        f
    }

    /// Whether every length-prefixed field has at most 65535 bytes.
    pub fn fits(&self) -> (b: bool)
        ensures
            b == self@.fits(),
    {
        if self.client_id.as_str().as_bytes().len() > FIELD_MAX {
            return false;
        }
        match &self.last_will {
            Some(w) => {
                if bytes_as_slice(&w.message).len() > FIELD_MAX {
                    return false;
                }
            },
            None => {},
        }
        match &self.username {
            Some(u) => {
                if u.as_str().as_bytes().len() > FIELD_MAX {
                    return false;
                }
            },
            None => {},
        }
        match &self.password {
            Some(p) => {
                if bytes_as_slice(p).len() > FIELD_MAX {
                    return false;
                }
            },
            None => {},
        }
        true
    }

    /// Appends the body of the packet, or fails with `PayloadTooLong`,
    /// leaving `out` as it was, where a field has more than 65535 bytes.
    #[verifier::rlimit(50)]
    pub fn encode(&self, out: &mut Vec<u8>) -> (res: Result<(), Error>)
        ensures
            match res {
                Ok(_) => self@.fits() && final(out)@ == old(out)@ + self@.spec_bytes(),
                Err(e) => e == Error::PayloadTooLong && !self@.fits() && final(out)@ == old(out)@,
            },
    {
        if !self.fits() {
            return Err(Error::PayloadTooLong);
        }
        self.protocol.encode(out);
        write_u8(out, self.flags());
        write_u16(out, self.keep_alive);
        let r0 = write_string(out, self.client_id.as_str());
        let ghost mut tail = spec_string_bytes(self@.client_id);
        let ghost head = old(out)@ + self.protocol.spec_bytes().push(self@.spec_flags())
            + spec_u16_bytes(self.keep_alive);
        assert(out@ =~= head + tail);
        match &self.last_will {
            Some(w) => {
                let r1 = w.encode(out);
                proof {
                    tail = tail + w@.spec_bytes();
                }
            },
            None => {
                proof {
                    tail = tail + Seq::<u8>::empty();
                }
            },
        }
        assert(out@ =~= head + tail);
        match &self.username {
            Some(u) => {
                let r2 = write_string(out, u.as_str());
                proof {
                    tail = tail + spec_string_bytes(u@);
                }
            },
            None => {
                proof {
                    tail = tail + Seq::<u8>::empty();
                }
            },
        }
        assert(out@ =~= head + tail);
        match &self.password {
            Some(p) => {
                let r3 = write_bytes(out, bytes_as_slice(p));
                proof {
                    tail = tail + spec_field_bytes(bytes_contents(*p));
                }
            },
            None => {
                proof {
                    tail = tail + Seq::<u8>::empty();
                }
            },
        }
        assert(out@ =~= head + tail);
        assert(tail == self@.spec_payload_bytes());
        assert(out@ =~= old(out)@ + self@.spec_bytes());
        Ok(())
    }

    /// The number of bytes of the packet's body.
    pub fn encode_len(&self) -> (n: usize)
        requires
            self@.spec_bytes().len() <= usize::MAX,
        ensures
            n == self@.spec_bytes().len(),
    {
        let mut length: usize = self.protocol.encode_len();
        length = length + 1 + 2;
        length = length + 2 + self.client_id.as_str().as_bytes().len();
        match &self.last_will {
            Some(w) => {
                length = length + w.encode_len();
            },
            None => {},
        }
        match &self.username {
            Some(u) => {
                length = length + 2 + u.as_str().as_bytes().len();
            },
            None => {},
        }
        match &self.password {
            Some(p) => {
                length = length + 2 + bytes_as_slice(p).len();
            },
            None => {},
        }
        length
    }
}

/// Return code of a connack packet.
#[derive(Debug, Clone, Copy, PartialEq, Eq, Structural, Hash)]
pub enum ConnectReturnCode {
    Accepted,
    UnacceptableProtocolVersion,
    IdentifierRejected,
    ServerUnavailable,
    BadUserNameOrPassword,
    NotAuthorized,
}

impl View for ConnectReturnCode {
    type V = ConnectReturnCode;

    open spec fn view(&self) -> ConnectReturnCode {
        *self
    }
}

impl ConnectReturnCode {
    /// What [`ConnectReturnCode::from_u8`] returns.
    pub open spec fn spec_from_u8(byte: u8) -> Result<ConnectReturnCode, ErrorView> {
        match byte {
            0 => Ok(ConnectReturnCode::Accepted),
            1 => Ok(ConnectReturnCode::UnacceptableProtocolVersion),
            2 => Ok(ConnectReturnCode::IdentifierRejected),
            3 => Ok(ConnectReturnCode::ServerUnavailable),
            4 => Ok(ConnectReturnCode::BadUserNameOrPassword),
            5 => Ok(ConnectReturnCode::NotAuthorized),
            n => Err(ErrorView::InvalidConnectReturnCode(n)),
        }
    }

    /// The code's byte on the wire.
    pub open spec fn spec_to_u8(self) -> u8 {
        match self {
            ConnectReturnCode::Accepted => 0,
            ConnectReturnCode::UnacceptableProtocolVersion => 1,
            ConnectReturnCode::IdentifierRejected => 2,
            ConnectReturnCode::ServerUnavailable => 3,
            ConnectReturnCode::BadUserNameOrPassword => 4,
            ConnectReturnCode::NotAuthorized => 5,
        }
    }

    /// The return code with the given byte, or `InvalidConnectReturnCode`.
    pub fn from_u8(byte: u8) -> (res: Result<ConnectReturnCode, Error>)
        ensures
            agrees(res, Self::spec_from_u8(byte)),
    {
        match byte {
            0 => Ok(ConnectReturnCode::Accepted),
            1 => Ok(ConnectReturnCode::UnacceptableProtocolVersion),
            2 => Ok(ConnectReturnCode::IdentifierRejected),
            3 => Ok(ConnectReturnCode::ServerUnavailable),
            4 => Ok(ConnectReturnCode::BadUserNameOrPassword),
            5 => Ok(ConnectReturnCode::NotAuthorized),
            n => Err(Error::InvalidConnectReturnCode(n)),
        }
    }

    /// The code's byte on the wire.
    #[verifier::when_used_as_spec(spec_to_u8)]
    pub fn to_u8(self) -> (b: u8)
        ensures
            b == self.spec_to_u8(),
    {
        match self {
            ConnectReturnCode::Accepted => 0,
            ConnectReturnCode::UnacceptableProtocolVersion => 1,
            ConnectReturnCode::IdentifierRejected => 2,
            ConnectReturnCode::ServerUnavailable => 3,
            ConnectReturnCode::BadUserNameOrPassword => 4,
            ConnectReturnCode::NotAuthorized => 5,
        }
    }
}

/// Body of a connack packet.
#[derive(Debug, Clone, Copy, PartialEq, Eq, Structural)]
pub struct Connack {
    pub session_present: bool,
    pub code: ConnectReturnCode,
}

impl View for Connack {
    type V = Connack;

    open spec fn view(&self) -> Connack {
        *self
    }
}

impl Connack {
    /// The parser behind [`Connack::decode`]: a flags byte that is 0 or 1,
    /// then the return code.
    pub open spec fn spec_decode(s: Seq<u8>, off: int) -> Result<(Connack, int), ErrorView> {
        match spec_read_u8(s, off) {
            Err(e) => Err(e),
            Ok((flags, off1)) => if flags > 1 {
                Err(ErrorView::InvalidConnackFlags(flags))
            } else {
                match spec_read_u8(s, off1) {
                    Err(e) => Err(e),
                    Ok((byte, off2)) => match ConnectReturnCode::spec_from_u8(byte) {
                        Err(e) => Err(e),
                        Ok(code) => Ok((Connack { session_present: flags == 1, code }, off2)),
                    },
                }
            },
        }
    }

    /// The two bytes of the body.
    pub open spec fn spec_bytes(self) -> Seq<u8> {
        seq![if self.session_present {
            1u8
        } else {
            0u8
        }, self.code.spec_to_u8()]
    }

    /// A connack body from its parts.
    pub fn new(session_present: bool, code: ConnectReturnCode) -> (c: Connack)
        ensures
            c == (Connack { session_present, code }),
    {
        Connack { session_present, code }
    }

    /// Reads the body of a connack packet at `offset`.
    pub fn decode(buf: &[u8], offset: &mut usize) -> (res: Result<Connack, Error>)
        ensures
            read_agrees(res, *final(offset), Self::spec_decode(buf@, *old(offset) as int)),
    {
        let session_present = match read_u8(buf, offset)? {
            0 => false,
            1 => true,
            flag => return Err(Error::InvalidConnackFlags(flag)),
        };
        let code = ConnectReturnCode::from_u8(read_u8(buf, offset)?)?;
        Ok(Connack { session_present, code })
    }

    /// Appends the two bytes of the body.
    pub fn encode(&self, out: &mut Vec<u8>)
        ensures
            final(out)@ == old(out)@ + self.spec_bytes(),
    {
        write_u8(out, if self.session_present {
            1
        } else {
            0
        });
        write_u8(out, self.code.to_u8());
        assert(out@ =~= old(out)@ + self.spec_bytes());
    }

    /// The number of bytes of the body.
    pub fn encode_len(&self) -> (n: usize)
        ensures
            n == self.spec_bytes().len(),
    {
        2
    }
}

} // verus!
