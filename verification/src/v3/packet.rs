//! The sum of all 3.1.1 packets, and whole-packet decoding and encoding.

use crate::common::error::{agrees, Error, ErrorView};
use crate::common::outside::{bytes_contents, bytes_from_slice};
use crate::common::types::{Pid, QoS};
use crate::common::utils::{
    read_u16, spec_read_u16, spec_total_len, spec_u16_bytes, write_raw, write_u16, VAR_INT_MAX,
};
use crate::v3::connect::{Connack, Connect, ConnectView};
use crate::v3::header::{Header, PacketType};
use crate::v3::publish::{Publish, PublishView};
use crate::v3::subscribe::{
    Suback, SubackView, Subscribe, SubscribeView, Unsubscribe, UnsubscribeView,
};
use bytes::Bytes;
use vstd::prelude::*;
use vstd::slice::slice_subrange;

verus! {

/// A 3.1.1 control packet.
#[derive(Debug, Clone, PartialEq, Eq)]
pub enum Packet {
    Connect(Connect),
    Connack(Connack),
    Publish(Publish),
    Puback(Pid),
    Pubrec(Pid),
    Pubrel(Pid),
    Pubcomp(Pid),
    Subscribe(Subscribe),
    Suback(Suback),
    Unsubscribe(Unsubscribe),
    Unsuback(Pid),
    Pingreq,
    Pingresp,
    Disconnect,
}

/// Mathematical model of [`Packet`].
pub enum PacketView {
    Connect(ConnectView),
    Connack(Connack),
    Publish(PublishView),
    Puback(u16),
    Pubrec(u16),
    Pubrel(u16),
    Pubcomp(u16),
    Subscribe(SubscribeView),
    Suback(SubackView),
    Unsubscribe(UnsubscribeView),
    Unsuback(u16),
    Pingreq,
    Pingresp,
    Disconnect,
}

impl View for Packet {
    type V = PacketView;

    open spec fn view(&self) -> PacketView {
        match *self {
            Packet::Connect(p) => PacketView::Connect(p@),
            Packet::Connack(p) => PacketView::Connack(p),
            Packet::Publish(p) => PacketView::Publish(p@),
            Packet::Puback(pid) => PacketView::Puback(pid@),
            Packet::Pubrec(pid) => PacketView::Pubrec(pid@),
            Packet::Pubrel(pid) => PacketView::Pubrel(pid@),
            Packet::Pubcomp(pid) => PacketView::Pubcomp(pid@),
            Packet::Subscribe(p) => PacketView::Subscribe(p@),
            Packet::Suback(p) => PacketView::Suback(p@),
            Packet::Unsubscribe(p) => PacketView::Unsubscribe(p@),
            Packet::Unsuback(pid) => PacketView::Unsuback(pid@),
            Packet::Pingreq => PacketView::Pingreq,
            Packet::Pingresp => PacketView::Pingresp,
            Packet::Disconnect => PacketView::Disconnect,
        }
    }
}

/// A body that is a packet identifier and nothing else.
pub open spec fn spec_decode_pid_body(body: Seq<u8>) -> Result<(u16, int), ErrorView> {
    match spec_read_u16(body, 0) {
        Err(e) => Err(e),
        Ok((raw, end)) => match Pid::spec_from_u16(raw) {
            Err(e) => Err(e),
            Ok(pid) => Ok((pid, end)),
        },
    }
}

/// `parsed`, if it used all `len` bytes of the body; `InvalidRemainingLength`
/// if bytes are left over.
pub open spec fn whole_body(parsed: Result<(PacketView, int), ErrorView>, len: int) -> Result<
    PacketView,
    ErrorView,
> {
    match parsed {
        Err(e) => Err(e),
        Ok((p, end)) => if end == len {
            Ok(p)
        } else {
            Err(ErrorView::InvalidRemainingLength)
        },
    }
}

/// The packet that a header stands for by itself: a ping request, a ping
/// response or a disconnect packet, whatever remaining length the header
/// announces.
pub open spec fn spec_empty_packet(h: Header) -> Option<PacketView> {
    match h.typ {
        PacketType::Pingreq => Some(PacketView::Pingreq),
        PacketType::Pingresp => Some(PacketView::Pingresp),
        PacketType::Disconnect => Some(PacketView::Disconnect),
        _ => None,
    }
}

/// The parser of the body of a connect packet, which must use the body
/// up.
pub open spec fn spec_body_connect(h: Header, body: Seq<u8>) -> Result<PacketView, ErrorView> {
    whole_body(
        match ConnectView::spec_decode(body, 0) {
            Err(e) => Err(e),
            Ok((p, end)) => Ok((PacketView::Connect(p), end)),
        },
        body.len() as int,
    )
}

/// The parser of the body of a connack packet, which must use the body
/// up.
pub open spec fn spec_body_connack(h: Header, body: Seq<u8>) -> Result<PacketView, ErrorView> {
    whole_body(
        match Connack::spec_decode(body, 0) {
            Err(e) => Err(e),
            Ok((p, end)) => Ok((PacketView::Connack(p), end)),
        },
        body.len() as int,
    )
}

/// The parser of the body of a publish packet, which must use the body
/// up.
pub open spec fn spec_body_publish(h: Header, body: Seq<u8>) -> Result<PacketView, ErrorView> {
    whole_body(
        match PublishView::spec_decode(body, 0, h) {
            Err(e) => Err(e),
            Ok((p, end)) => Ok((PacketView::Publish(p), end)),
        },
        body.len() as int,
    )
}

/// The parser of the body of a puback packet, which must use the body
/// up.
pub open spec fn spec_body_puback(h: Header, body: Seq<u8>) -> Result<PacketView, ErrorView> {
    whole_body(
        match spec_decode_pid_body(body) {
            Err(e) => Err(e),
            Ok((p, end)) => Ok((PacketView::Puback(p), end)),
        },
        body.len() as int,
    )
}

/// The parser of the body of a pubrec packet, which must use the body
/// up.
pub open spec fn spec_body_pubrec(h: Header, body: Seq<u8>) -> Result<PacketView, ErrorView> {
    whole_body(
        match spec_decode_pid_body(body) {
            Err(e) => Err(e),
            Ok((p, end)) => Ok((PacketView::Pubrec(p), end)),
        },
        body.len() as int,
    )
}

/// The parser of the body of a pubrel packet, which must use the body
/// up.
pub open spec fn spec_body_pubrel(h: Header, body: Seq<u8>) -> Result<PacketView, ErrorView> {
    whole_body(
        match spec_decode_pid_body(body) {
            Err(e) => Err(e),
            Ok((p, end)) => Ok((PacketView::Pubrel(p), end)),
        },
        body.len() as int,
    )
}

/// The parser of the body of a pubcomp packet, which must use the body
/// up.
pub open spec fn spec_body_pubcomp(h: Header, body: Seq<u8>) -> Result<PacketView, ErrorView> {
    whole_body(
        match spec_decode_pid_body(body) {
            Err(e) => Err(e),
            Ok((p, end)) => Ok((PacketView::Pubcomp(p), end)),
        },
        body.len() as int,
    )
}

/// The parser of the body of a subscribe packet, which must use the body
/// up.
pub open spec fn spec_body_subscribe(h: Header, body: Seq<u8>) -> Result<PacketView, ErrorView> {
    whole_body(
        match SubscribeView::spec_decode(body, 0, h.remaining_len as int) {
            Err(e) => Err(e),
            Ok((p, end)) => Ok((PacketView::Subscribe(p), end)),
        },
        body.len() as int,
    )
}

/// The parser of the body of a suback packet, which must use the body
/// up.
pub open spec fn spec_body_suback(h: Header, body: Seq<u8>) -> Result<PacketView, ErrorView> {
    whole_body(
        match SubackView::spec_decode(body, 0, h.remaining_len as int) {
            Err(e) => Err(e),
            Ok((p, end)) => Ok((PacketView::Suback(p), end)),
        },
        body.len() as int,
    )
}

/// The parser of the body of a unsubscribe packet, which must use the body
/// up.
pub open spec fn spec_body_unsubscribe(h: Header, body: Seq<u8>) -> Result<PacketView, ErrorView> {
    whole_body(
        match UnsubscribeView::spec_decode(body, 0, h.remaining_len as int) {
            Err(e) => Err(e),
            Ok((p, end)) => Ok((PacketView::Unsubscribe(p), end)),
        },
        body.len() as int,
    )
}

/// The parser of the body of a unsuback packet, which must use the body
/// up.
pub open spec fn spec_body_unsuback(h: Header, body: Seq<u8>) -> Result<PacketView, ErrorView> {
    whole_body(
        match spec_decode_pid_body(body) {
            Err(e) => Err(e),
            Ok((p, end)) => Ok((PacketView::Unsuback(p), end)),
        },
        body.len() as int,
    )
}

/// The parser of bodies, for a header `h` of a type that has a body: `body`
/// holds exactly the bytes behind the header, and its parser must use it
/// up. A header of a type without a body stands for its packet by itself.
#[verifier::opaque]
pub open spec fn spec_decode_body(h: Header, body: Seq<u8>) -> Result<PacketView, ErrorView>
    recommends
        h.typ.spec_has_body(),
{
    match h.typ {
        PacketType::Connect => spec_body_connect(h, body),
        PacketType::Connack => spec_body_connack(h, body),
        PacketType::Publish => spec_body_publish(h, body),
        PacketType::Puback => spec_body_puback(h, body),
        PacketType::Pubrec => spec_body_pubrec(h, body),
        PacketType::Pubrel => spec_body_pubrel(h, body),
        PacketType::Pubcomp => spec_body_pubcomp(h, body),
        PacketType::Subscribe => spec_body_subscribe(h, body),
        PacketType::Suback => spec_body_suback(h, body),
        PacketType::Unsubscribe => spec_body_unsubscribe(h, body),
        PacketType::Unsuback => spec_body_unsuback(h, body),
        PacketType::Pingreq => Ok(PacketView::Pingreq),
        PacketType::Pingresp => Ok(PacketView::Pingresp),
        PacketType::Disconnect => Ok(PacketView::Disconnect),
    }
}

/// The parser of whole packets at the start of `s`: the packet and its
/// length in bytes, `None` where `s` ends before the packet does. A packet
/// of a type without a body ends with its fixed header. A body whose own
/// lengths reach beyond it counts as not yet complete.
pub open spec fn spec_decode_packet(s: Seq<u8>) -> Result<Option<(PacketView, int)>, ErrorView> {
    match Header::spec_decode(s, 0) {
        Err(ErrorView::UnexpectedEof) => Ok(None),
        Err(e) => Err(e),
        Ok((h, start)) => match spec_empty_packet(h) {
            Some(p) => Ok(Some((p, start))),
            None => if s.len() < start + h.remaining_len {
                Ok(None)
            } else {
                match spec_decode_body(h, s.subrange(start, start + h.remaining_len)) {
                    Err(ErrorView::UnexpectedEof) => Ok(None),
                    Err(e) => Err(e),
                    Ok(p) => Ok(Some((p, start + h.remaining_len))),
                }
            },
        },
    }
}

impl PacketView {
    /// The packet's type.
    pub open spec fn typ(self) -> PacketType {
        match self {
            PacketView::Connect(_) => PacketType::Connect,
            PacketView::Connack(_) => PacketType::Connack,
            PacketView::Publish(_) => PacketType::Publish,
            PacketView::Puback(_) => PacketType::Puback,
            PacketView::Pubrec(_) => PacketType::Pubrec,
            PacketView::Pubrel(_) => PacketType::Pubrel,
            PacketView::Pubcomp(_) => PacketType::Pubcomp,
            PacketView::Subscribe(_) => PacketType::Subscribe,
            PacketView::Suback(_) => PacketType::Suback,
            PacketView::Unsubscribe(_) => PacketType::Unsubscribe,
            PacketView::Unsuback(_) => PacketType::Unsuback,
            PacketView::Pingreq => PacketType::Pingreq,
            PacketView::Pingresp => PacketType::Pingresp,
            PacketView::Disconnect => PacketType::Disconnect,
        }
    }

    /// The bytes of the packet's body.
    pub open spec fn spec_body_bytes(self) -> Seq<u8> {
        match self {
            PacketView::Connect(p) => p.spec_bytes(),
            PacketView::Connack(p) => p.spec_bytes(),
            PacketView::Publish(p) => p.spec_bytes(),
            PacketView::Puback(pid) => spec_u16_bytes(pid),
            PacketView::Pubrec(pid) => spec_u16_bytes(pid),
            PacketView::Pubrel(pid) => spec_u16_bytes(pid),
            PacketView::Pubcomp(pid) => spec_u16_bytes(pid),
            PacketView::Subscribe(p) => p.spec_bytes(),
            PacketView::Suback(p) => p.spec_bytes(),
            PacketView::Unsubscribe(p) => p.spec_bytes(),
            PacketView::Unsuback(pid) => spec_u16_bytes(pid),
            PacketView::Pingreq => Seq::empty(),
            PacketView::Pingresp => Seq::empty(),
            PacketView::Disconnect => Seq::empty(),
        }
    }

    /// The packet's fixed header, for a body of `remaining_len` bytes.
    pub open spec fn spec_header(self, remaining_len: u32) -> Header {
        match self {
            PacketView::Publish(p) => Header {
                typ: PacketType::Publish,
                dup: p.dup,
                qos: p.qos_pid.qos(),
                retain: p.retain,
                remaining_len,
            },
            _ => Header {
                typ: self.typ(),
                dup: false,
                qos: QoS::Level0,
                retain: false,
                remaining_len,
            },
        }
    }

    /// What [`Packet::encode`] returns: fixed header and body, or
    /// `PayloadTooLong` for a connect packet with a field of more than 65535
    /// bytes, or `InvalidVarByteInt` for a body of more than
    /// [`VAR_INT_MAX`] bytes.
    pub open spec fn spec_encode(self) -> Result<Seq<u8>, ErrorView> {
        if self matches PacketView::Connect(p) && !p.fits() {
            Err(ErrorView::PayloadTooLong)
        } else if self.spec_body_bytes().len() > VAR_INT_MAX {
            Err(ErrorView::InvalidVarByteInt)
        } else {
            Ok(
                self.spec_header(self.spec_body_bytes().len() as u32).spec_bytes()
                    + self.spec_body_bytes(),
            )
        }
    }

    /// A packet that can be carried: every part obeys its rules.
    pub open spec fn wf(self) -> bool {
        match self {
            PacketView::Connect(p) => p.wf(),
            PacketView::Connack(_) => true,
            PacketView::Publish(p) => p.wf(),
            PacketView::Puback(pid) => pid != 0,
            PacketView::Pubrec(pid) => pid != 0,
            PacketView::Pubrel(pid) => pid != 0,
            PacketView::Pubcomp(pid) => pid != 0,
            PacketView::Subscribe(p) => p.wf(),
            PacketView::Suback(p) => p.wf(),
            PacketView::Unsubscribe(p) => p.wf(),
            PacketView::Unsuback(pid) => pid != 0,
            PacketView::Pingreq => true,
            PacketView::Pingresp => true,
            PacketView::Disconnect => true,
        }
    }
}

/// Reads a body that is a packet identifier and nothing else.
fn decode_pid_body(buf: &[u8], offset: &mut usize) -> (res: Result<Pid, Error>)
    requires
        *old(offset) == 0,
    ensures
        crate::common::error::read_agrees(res, *final(offset), spec_decode_pid_body(buf@)),
{
    let raw = read_u16(buf, offset)?;
    Pid::from_u16(raw)
}

/// `InvalidRemainingLength` unless the body was used up.
fn check_whole(end: usize, len: usize) -> (res: Result<(), Error>)
    ensures
        end == len ==> res is Ok,
        end != len ==> res == Err::<(), Error>(Error::InvalidRemainingLength),
{
    if end == len {
        Ok(())
    } else {
        Err(Error::InvalidRemainingLength)
    }
}

impl Header {
    /// The packet that this header stands for by itself: a ping request,
    /// a ping response or a disconnect packet, whatever remaining length
    /// the header announces; `None` for every other type.
    pub fn build_empty_packet(&self) -> (res: Option<Packet>)
        ensures
            match spec_empty_packet(*self) {
                Some(p) => res is Some && res->Some_0@ == p,
                None => res is None,
            },
            res is None == self.typ.spec_has_body(),
    {
        match self.typ {
            PacketType::Pingreq => Some(Packet::Pingreq),
            PacketType::Pingresp => Some(Packet::Pingresp),
            PacketType::Disconnect => Some(Packet::Disconnect),
            _ => None,
        }
    }

    /// Decodes the body behind this header, which is of a type that has a
    /// body; `buf` holds exactly the body.
    #[verifier::rlimit(50)]
    pub fn decode_buffer(self, buf: &[u8]) -> (res: Result<Packet, Error>)
        requires
            self.typ.spec_has_body(),
        ensures
            agrees(res, spec_decode_body(self, buf@)),
    {
        reveal(spec_decode_body);
        let mut offset: usize = 0;
        let len: usize = buf.len();
        match self.typ {
            PacketType::Connect => {
                let p = Connect::decode(buf, &mut offset)?;
                check_whole(offset, len)?;
                Ok(Packet::Connect(p))
            },
            PacketType::Connack => {
                let p = Connack::decode(buf, &mut offset)?;
                check_whole(offset, len)?;
                Ok(Packet::Connack(p))
            },
            PacketType::Publish => {
                let p = Publish::decode(buf, &mut offset, self)?;
                check_whole(offset, len)?;
                Ok(Packet::Publish(p))
            },
            PacketType::Puback => {
                let p = decode_pid_body(buf, &mut offset)?;
                check_whole(offset, len)?;
                Ok(Packet::Puback(p))
            },
            PacketType::Pubrec => {
                let p = decode_pid_body(buf, &mut offset)?;
                check_whole(offset, len)?;
                Ok(Packet::Pubrec(p))
            },
            PacketType::Pubrel => {
                let p = decode_pid_body(buf, &mut offset)?;
                check_whole(offset, len)?;
                Ok(Packet::Pubrel(p))
            },
            PacketType::Pubcomp => {
                let p = decode_pid_body(buf, &mut offset)?;
                check_whole(offset, len)?;
                Ok(Packet::Pubcomp(p))
            },
            PacketType::Subscribe => {
                let p = Subscribe::decode(buf, &mut offset, self)?;
                check_whole(offset, len)?;
                Ok(Packet::Subscribe(p))
            },
            PacketType::Suback => {
                let p = Suback::decode(buf, &mut offset, self)?;
                check_whole(offset, len)?;
                Ok(Packet::Suback(p))
            },
            PacketType::Unsubscribe => {
                let p = Unsubscribe::decode(buf, &mut offset, self)?;
                check_whole(offset, len)?;
                Ok(Packet::Unsubscribe(p))
            },
            PacketType::Unsuback => {
                let p = decode_pid_body(buf, &mut offset)?;
                check_whole(offset, len)?;
                Ok(Packet::Unsuback(p))
            },
            PacketType::Pingreq => Ok(Packet::Pingreq),
            PacketType::Pingresp => Ok(Packet::Pingresp),
            PacketType::Disconnect => Ok(Packet::Disconnect),
        }
    }
}

impl Packet {
    /// The packet's type.
    pub fn get_type(&self) -> (t: PacketType)
        ensures
            t == self@.typ(),
    {
        match self {
            Packet::Connect(_) => PacketType::Connect,
            Packet::Connack(_) => PacketType::Connack,
            Packet::Publish(_) => PacketType::Publish,
            Packet::Puback(_) => PacketType::Puback,
            Packet::Pubrec(_) => PacketType::Pubrec,
            Packet::Pubrel(_) => PacketType::Pubrel,
            Packet::Pubcomp(_) => PacketType::Pubcomp,
            Packet::Subscribe(_) => PacketType::Subscribe,
            Packet::Suback(_) => PacketType::Suback,
            Packet::Unsubscribe(_) => PacketType::Unsubscribe,
            Packet::Unsuback(_) => PacketType::Unsuback,
            Packet::Pingreq => PacketType::Pingreq,
            Packet::Pingresp => PacketType::Pingresp,
            Packet::Disconnect => PacketType::Disconnect,
        }
    }

    /// Decodes the packet at the start of `buf`, and says how many bytes it
    /// has. `Ok(None)` where `buf` ends before the packet does.
    pub fn decode_with_len(buf: &[u8]) -> (res: Result<Option<(Packet, usize)>, Error>)
        ensures
            match spec_decode_packet(buf@) {
                Ok(Some((p, n))) => res is Ok && res->Ok_0 is Some && res->Ok_0->Some_0.0@ == p
                    && res->Ok_0->Some_0.1 == n,
                Ok(None) => res is Ok && res->Ok_0 is None,
                Err(e) => res is Err && res->Err_0@ == e,
            },
    {
        let mut offset: usize = 0;
        let header = match Header::decode_at(buf, &mut offset) {
            Ok(h) => h,
            Err(e) => {
                if e.is_eof() {
                    return Ok(None);
                }
                return Err(e);
            },
        };
        match header.build_empty_packet() {
            Some(p) => {
                return Ok(Some((p, offset)));
            },
            None => {},
        }
        let body_len: usize = header.remaining_len();
        if buf.len() - offset < body_len {
            return Ok(None);
        }
        let end: usize = offset + body_len;
        match header.decode_buffer(slice_subrange(buf, offset, end)) {
            Ok(p) => Ok(Some((p, end))),
            Err(e) => {
                if e.is_eof() {
                    Ok(None)
                } else {
                    Err(e)
                }
            },
        }
    }

    /// Decodes the packet at the start of `buf`. `Ok(None)` where `buf` ends
    /// before the packet does.
    pub fn decode(buf: &[u8]) -> (res: Result<Option<Packet>, Error>)
        ensures
            match spec_decode_packet(buf@) {
                Ok(Some((p, n))) => res is Ok && res->Ok_0 is Some && res->Ok_0->Some_0@ == p,
                Ok(None) => res is Ok && res->Ok_0 is None,
                Err(e) => res is Err && res->Err_0@ == e,
            },
    {
        match Self::decode_with_len(buf)? {
            Some((p, _)) => Ok(Some(p)),
            None => Ok(None),
        }
    }

    /// Appends the body of the packet, or fails with `PayloadTooLong`,
    /// leaving `out` as it was, for a connect packet with a field of more
    /// than 65535 bytes.
    pub fn encode_body(&self, out: &mut Vec<u8>) -> (res: Result<(), Error>)
        ensures
            match res {
                Ok(_) => !(self@ matches PacketView::Connect(p) && !p.fits()) && final(out)@
                    == old(out)@ + self@.spec_body_bytes(),
                Err(e) => e == Error::PayloadTooLong && (self@ matches PacketView::Connect(p)
                    && !p.fits()) && final(out)@ == old(out)@,
            },
    {
        match self {
            Packet::Connect(p) => {
                p.encode(out)?;
            },
            Packet::Connack(p) => {
                p.encode(out);
            },
            Packet::Publish(p) => {
                p.encode(out);
            },
            Packet::Puback(pid) => {
                write_u16(out, pid.value());
            },
            Packet::Pubrec(pid) => {
                write_u16(out, pid.value());
            },
            Packet::Pubrel(pid) => {
                write_u16(out, pid.value());
            },
            Packet::Pubcomp(pid) => {
                write_u16(out, pid.value());
            },
            Packet::Subscribe(p) => {
                p.encode(out);
            },
            Packet::Suback(p) => {
                p.encode(out);
            },
            Packet::Unsubscribe(p) => {
                p.encode(out);
            },
            Packet::Unsuback(pid) => {
                write_u16(out, pid.value());
            },
            Packet::Pingreq => {
                assert(out@ =~= old(out)@ + Seq::<u8>::empty());
            },
            Packet::Pingresp => {
                assert(out@ =~= old(out)@ + Seq::<u8>::empty());
            },
            Packet::Disconnect => {
                assert(out@ =~= old(out)@ + Seq::<u8>::empty());
            },
        }
        Ok(())
    }

    /// The packet's fixed header, for a body of `remaining_len` bytes.
    pub fn header(&self, remaining_len: u32) -> (h: Header)
        ensures
            h == self@.spec_header(remaining_len),
    {
        match self {
            Packet::Publish(p) => Header::new(
                PacketType::Publish,
                p.dup,
                p.qos_pid.qos(),
                p.retain,
                remaining_len,
            ),
            _ => Header::new(self.get_type(), false, QoS::Level0, false, remaining_len),
        }
    }

    /// The packet's bytes: fixed header, then body.
    pub fn encode(&self) -> (res: Result<Vec<u8>, Error>)
        ensures
            agrees(res, self@.spec_encode()),
    {
        let mut body: Vec<u8> = Vec::new();
        self.encode_body(&mut body)?;
        assert(body@ =~= self@.spec_body_bytes());
        if body.len() > 268_435_455 {
            return Err(Error::InvalidVarByteInt);
        }
        let header = self.header(body.len() as u32);
        let mut out: Vec<u8> = Vec::new();
        let r = header.encode(&mut out);
        write_raw(&mut out, body.as_slice());
        assert(out@ =~= header.spec_bytes() + body@);
        Ok(out)
    }

    /// The packet's bytes in a shared buffer: fixed header, then body.
    pub fn encode_to_bytes(&self) -> (res: Result<Bytes, Error>)
        ensures
            match self@.spec_encode() {
                Ok(b) => res is Ok && bytes_contents(res->Ok_0) == b,
                Err(e) => res is Err && res->Err_0@ == e,
            },
    {
        let v = self.encode()?;
        Ok(bytes_from_slice(v.as_slice()))
    }

    /// The number of bytes of the packet's body.
    pub fn encode_len(&self) -> (n: usize)
        requires
            self@.spec_body_bytes().len() <= usize::MAX,
        ensures
            n == self@.spec_body_bytes().len(),
    {
        match self {
            Packet::Connect(p) => p.encode_len(),
            Packet::Connack(p) => p.encode_len(),
            Packet::Publish(p) => p.encode_len(),
            Packet::Puback(_) => 2,
            Packet::Pubrec(_) => 2,
            Packet::Pubrel(_) => 2,
            Packet::Pubcomp(_) => 2,
            Packet::Subscribe(p) => p.encode_len(),
            Packet::Suback(p) => p.encode_len(),
            Packet::Unsubscribe(p) => p.encode_len(),
            Packet::Unsuback(_) => 2,
            Packet::Pingreq => 0,
            Packet::Pingresp => 0,
            Packet::Disconnect => 0,
        }
    }
}

/// A packet's encoding has as many bytes as [`crate::common::utils::total_len`]
/// gives for the length of its body.
pub proof fn lemma_length_agreement(p: PacketView)
    requires
        p.spec_encode() is Ok,
    ensures
        spec_total_len(p.spec_body_bytes().len() as int) == Ok::<int, ErrorView>(
            p.spec_encode()->Ok_0.len() as int,
        ),
{
    let n = p.spec_body_bytes().len() as u32;
    crate::common::utils::lemma_var_int_round_trip(n, Seq::empty(), Seq::empty());
}

} // verus!
