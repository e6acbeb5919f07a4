//! The sum of all 5.0 packets, and whole-packet decoding and encoding.

use crate::common::error::{Error, ErrorView};
use crate::common::outside::{bytes_contents, bytes_from_slice};
use crate::common::types::QoS;
use crate::common::utils::{spec_total_len, write_raw, VAR_INT_MAX};
use crate::v5::connect::{Auth, Connack, ConnackView, Connect, ConnectView, Disconnect, ReasonView};
use crate::v5::error::{agrees5, ErrorV5, ErrorV5View};
use crate::v5::header::{Header, PacketType};
use crate::v5::publish::{AckView, Puback, Pubcomp, Publish, PublishView, Pubrec, Pubrel};
use crate::v5::subscribe::{
    Suback, SubackView, Subscribe, SubscribeView, Unsuback, UnsubackView, Unsubscribe,
    UnsubscribeView,
};
use bytes::Bytes;
use vstd::prelude::*;
use vstd::slice::slice_subrange;

verus! {

/// A 5.0 control packet.
#[derive(Debug, Clone, PartialEq, Eq)]
pub enum Packet {
    Connect(Connect),
    Connack(Connack),
    Publish(Publish),
    Puback(Puback),
    Pubrec(Pubrec),
    Pubrel(Pubrel),
    Pubcomp(Pubcomp),
    Subscribe(Subscribe),
    Suback(Suback),
    Unsubscribe(Unsubscribe),
    Unsuback(Unsuback),
    Pingreq,
    Pingresp,
    Disconnect(Disconnect),
    Auth(Auth),
}

/// Mathematical model of [`Packet`].
pub enum PacketView {
    Connect(ConnectView),
    Connack(ConnackView),
    Publish(PublishView),
    Puback(AckView),
    Pubrec(AckView),
    Pubrel(AckView),
    Pubcomp(AckView),
    Subscribe(SubscribeView),
    Suback(SubackView),
    Unsubscribe(UnsubscribeView),
    Unsuback(UnsubackView),
    Pingreq,
    Pingresp,
    Disconnect(ReasonView),
    Auth(ReasonView),
}

impl View for Packet {
    type V = PacketView;

    open spec fn view(&self) -> PacketView {
        match *self {
            Packet::Connect(p) => PacketView::Connect(p@),
            Packet::Connack(p) => PacketView::Connack(p@),
            Packet::Publish(p) => PacketView::Publish(p@),
            Packet::Puback(p) => PacketView::Puback(p@),
            Packet::Pubrec(p) => PacketView::Pubrec(p@),
            Packet::Pubrel(p) => PacketView::Pubrel(p@),
            Packet::Pubcomp(p) => PacketView::Pubcomp(p@),
            Packet::Subscribe(p) => PacketView::Subscribe(p@),
            Packet::Suback(p) => PacketView::Suback(p@),
            Packet::Unsubscribe(p) => PacketView::Unsubscribe(p@),
            Packet::Unsuback(p) => PacketView::Unsuback(p@),
            Packet::Pingreq => PacketView::Pingreq,
            Packet::Pingresp => PacketView::Pingresp,
            Packet::Disconnect(p) => PacketView::Disconnect(p@),
            Packet::Auth(p) => PacketView::Auth(p@),
        }
    }
}

/// `parsed`, if it used all `len` bytes of the body; `InvalidRemainingLength`
/// if bytes are left over.
pub open spec fn whole_body(parsed: Result<(PacketView, int), ErrorV5View>, len: int) -> Result<
    PacketView,
    ErrorV5View,
> {
    match parsed {
        Err(e) => Err(e),
        Ok((p, end)) => if end == len {
            Ok(p)
        } else {
            Err(ErrorV5View::Common(ErrorView::InvalidRemainingLength))
        },
    }
}

/// The packet that a header stands for by itself: a ping request or a ping
/// response, whatever remaining length the header announces; and, where the
/// remaining length is zero, a disconnect or auth packet, which then has
/// reason code zero and no properties.
pub open spec fn spec_empty_packet(h: Header) -> Option<PacketView> {
    match h.typ {
        PacketType::Pingreq => Some(PacketView::Pingreq),
        PacketType::Pingresp => Some(PacketView::Pingresp),
        PacketType::Disconnect => if h.remaining_len == 0 {
            Some(PacketView::Disconnect(ReasonView { reason_code: 0, properties: Seq::empty() }))
        } else {
            None
        },
        PacketType::Auth => if h.remaining_len == 0 {
            Some(PacketView::Auth(ReasonView { reason_code: 0, properties: Seq::empty() }))
        } else {
            None
        },
        _ => None,
    }
}

/// The parser of the body of a connect packet, which must use the body
/// up.
pub open spec fn spec_body_connect(h: Header, body: Seq<u8>) -> Result<PacketView, ErrorV5View> {
    whole_body(
        match ConnectView::spec_decode(body, 0) {
            Err(e) => Err(e),
            Ok((p, end)) => Ok((PacketView::Connect(p), end)),
        },
        body.len() as int,
    )
}

/// The parser of the body of a connack packet, which must use the body
/// up.
pub open spec fn spec_body_connack(h: Header, body: Seq<u8>) -> Result<PacketView, ErrorV5View> {
    whole_body(
        match ConnackView::spec_decode(body, 0) {
            Err(e) => Err(e),
            Ok((p, end)) => Ok((PacketView::Connack(p), end)),
        },
        body.len() as int,
    )
}

/// The parser of the body of a publish packet, which must use the body
/// up.
pub open spec fn spec_body_publish(h: Header, body: Seq<u8>) -> Result<PacketView, ErrorV5View> {
    whole_body(
        match PublishView::spec_decode(body, 0, h) {
            Err(e) => Err(e),
            Ok((p, end)) => Ok((PacketView::Publish(p), end)),
        },
        body.len() as int,
    )
}

/// The parser of the body of a puback packet, which must use the body
/// up.
pub open spec fn spec_body_puback(h: Header, body: Seq<u8>) -> Result<PacketView, ErrorV5View> {
    whole_body(
        match AckView::spec_decode(body, 0, h.remaining_len as int, PacketType::Puback) {
            Err(e) => Err(e),
            Ok((p, end)) => Ok((PacketView::Puback(p), end)),
        },
        body.len() as int,
    )
}

/// The parser of the body of a pubrec packet, which must use the body
/// up.
pub open spec fn spec_body_pubrec(h: Header, body: Seq<u8>) -> Result<PacketView, ErrorV5View> {
    whole_body(
        match AckView::spec_decode(body, 0, h.remaining_len as int, PacketType::Pubrec) {
            Err(e) => Err(e),
            Ok((p, end)) => Ok((PacketView::Pubrec(p), end)),
        },
        body.len() as int,
    )
}

/// The parser of the body of a pubrel packet, which must use the body
/// up.
pub open spec fn spec_body_pubrel(h: Header, body: Seq<u8>) -> Result<PacketView, ErrorV5View> {
    whole_body(
        match AckView::spec_decode(body, 0, h.remaining_len as int, PacketType::Pubrel) {
            Err(e) => Err(e),
            Ok((p, end)) => Ok((PacketView::Pubrel(p), end)),
        },
        body.len() as int,
    )
}

/// The parser of the body of a pubcomp packet, which must use the body
/// up.
pub open spec fn spec_body_pubcomp(h: Header, body: Seq<u8>) -> Result<PacketView, ErrorV5View> {
    whole_body(
        match AckView::spec_decode(body, 0, h.remaining_len as int, PacketType::Pubcomp) {
            Err(e) => Err(e),
            Ok((p, end)) => Ok((PacketView::Pubcomp(p), end)),
        },
        body.len() as int,
    )
}

/// The parser of the body of a subscribe packet, which must use the body
/// up.
pub open spec fn spec_body_subscribe(h: Header, body: Seq<u8>) -> Result<PacketView, ErrorV5View> {
    whole_body(
        match SubscribeView::spec_decode(body, 0) {
            Err(e) => Err(e),
            Ok((p, end)) => Ok((PacketView::Subscribe(p), end)),
        },
        body.len() as int,
    )
}

/// The parser of the body of a suback packet, which must use the body
/// up.
pub open spec fn spec_body_suback(h: Header, body: Seq<u8>) -> Result<PacketView, ErrorV5View> {
    whole_body(
        match SubackView::spec_decode(body, 0) {
            Err(e) => Err(e),
            Ok((p, end)) => Ok((PacketView::Suback(p), end)),
        },
        body.len() as int,
    )
}

/// The parser of the body of a unsubscribe packet, which must use the body
/// up.
pub open spec fn spec_body_unsubscribe(h: Header, body: Seq<u8>) -> Result<PacketView, ErrorV5View> {
    whole_body(
        match UnsubscribeView::spec_decode(body, 0) {
            Err(e) => Err(e),
            Ok((p, end)) => Ok((PacketView::Unsubscribe(p), end)),
        },
        body.len() as int,
    )
}

/// The parser of the body of a unsuback packet, which must use the body
/// up.
pub open spec fn spec_body_unsuback(h: Header, body: Seq<u8>) -> Result<PacketView, ErrorV5View> {
    whole_body(
        match UnsubackView::spec_decode(body, 0) {
            Err(e) => Err(e),
            Ok((p, end)) => Ok((PacketView::Unsuback(p), end)),
        },
        body.len() as int,
    )
}

/// The parser of the body of a disconnect packet, which must use the body
/// up.
pub open spec fn spec_body_disconnect(h: Header, body: Seq<u8>) -> Result<PacketView, ErrorV5View> {
    whole_body(
        match ReasonView::spec_decode(body, 0, h.remaining_len as int, PacketType::Disconnect) {
            Err(e) => Err(e),
            Ok((p, end)) => Ok((PacketView::Disconnect(p), end)),
        },
        body.len() as int,
    )
}

/// The parser of the body of a auth packet, which must use the body
/// up.
pub open spec fn spec_body_auth(h: Header, body: Seq<u8>) -> Result<PacketView, ErrorV5View> {
    whole_body(
        match ReasonView::spec_decode(body, 0, h.remaining_len as int, PacketType::Auth) {
            Err(e) => Err(e),
            Ok((p, end)) => Ok((PacketView::Auth(p), end)),
        },
        body.len() as int,
    )
}

/// The parser of bodies, for a header `h` of a type that has a body: `body`
/// holds exactly the bytes behind the header, and its parser must use it
/// up. A header of a type without a body stands for its packet by itself.
#[verifier::opaque]
pub open spec fn spec_decode_body(h: Header, body: Seq<u8>) -> Result<PacketView, ErrorV5View>
    recommends
        h.typ.spec_has_body(),
{
    match h.typ {
        PacketType::Connect => spec_body_connect(h, body),
        PacketType::Connack => spec_body_connack(h, body),
        PacketType::Publish => spec_body_publish(h, body),
        PacketType::Puback => spec_body_puback(h, body),
        PacketType::Pubrec => spec_body_pubrec(h, body),
        PacketType::Pubrel => spec_body_pubrel(h, body),
        PacketType::Pubcomp => spec_body_pubcomp(h, body),
        PacketType::Subscribe => spec_body_subscribe(h, body),
        PacketType::Suback => spec_body_suback(h, body),
        PacketType::Unsubscribe => spec_body_unsubscribe(h, body),
        PacketType::Unsuback => spec_body_unsuback(h, body),
        PacketType::Pingreq => Ok(PacketView::Pingreq),
        PacketType::Pingresp => Ok(PacketView::Pingresp),
        PacketType::Disconnect => spec_body_disconnect(h, body),
        PacketType::Auth => spec_body_auth(h, body),
    }
}

/// The parser of whole packets at the start of `s`: the packet and its
/// length in bytes, `None` where `s` ends before the packet does. A packet
/// that its header stands for by itself ends with its fixed header. A body
/// whose own lengths reach beyond it counts as not yet complete.
pub open spec fn spec_decode_packet(s: Seq<u8>) -> Result<Option<(PacketView, int)>, ErrorV5View> {
    match Header::spec_decode(s, 0) {
        Err(ErrorView::UnexpectedEof) => Ok(None),
        Err(e) => Err(ErrorV5View::Common(e)),
        Ok((h, start)) => match spec_empty_packet(h) {
            Some(p) => Ok(Some((p, start))),
            None => if s.len() < start + h.remaining_len {
                Ok(None)
            } else {
                match spec_decode_body(h, s.subrange(start, start + h.remaining_len)) {
                    Err(ErrorV5View::Common(ErrorView::UnexpectedEof)) => Ok(None),
                    Err(e) => Err(e),
                    Ok(p) => Ok(Some((p, start + h.remaining_len))),
                }
            },
        },
    }
}

impl PacketView {
    /// The packet's type.
    pub open spec fn typ(self) -> PacketType {
        match self {
            PacketView::Connect(_) => PacketType::Connect,
            PacketView::Connack(_) => PacketType::Connack,
            PacketView::Publish(_) => PacketType::Publish,
            PacketView::Puback(_) => PacketType::Puback,
            PacketView::Pubrec(_) => PacketType::Pubrec,
            PacketView::Pubrel(_) => PacketType::Pubrel,
            PacketView::Pubcomp(_) => PacketType::Pubcomp,
            PacketView::Subscribe(_) => PacketType::Subscribe,
            PacketView::Suback(_) => PacketType::Suback,
            PacketView::Unsubscribe(_) => PacketType::Unsubscribe,
            PacketView::Unsuback(_) => PacketType::Unsuback,
            PacketView::Pingreq => PacketType::Pingreq,
            PacketView::Pingresp => PacketType::Pingresp,
            PacketView::Disconnect(_) => PacketType::Disconnect,
            PacketView::Auth(_) => PacketType::Auth,
        }
    }

    /// The bytes of the packet's body.
    pub open spec fn spec_body_bytes(self) -> Seq<u8> {
        match self {
            PacketView::Connect(p) => p.spec_bytes(),
            PacketView::Connack(p) => p.spec_bytes(),
            PacketView::Publish(p) => p.spec_bytes(),
            PacketView::Puback(p) => p.spec_bytes(),
            PacketView::Pubrec(p) => p.spec_bytes(),
            PacketView::Pubrel(p) => p.spec_bytes(),
            PacketView::Pubcomp(p) => p.spec_bytes(),
            PacketView::Subscribe(p) => p.spec_bytes(),
            PacketView::Suback(p) => p.spec_bytes(),
            PacketView::Unsubscribe(p) => p.spec_bytes(),
            PacketView::Unsuback(p) => p.spec_bytes(),
            PacketView::Pingreq => Seq::empty(),
            PacketView::Pingresp => Seq::empty(),
            PacketView::Disconnect(p) => p.spec_bytes(),
            PacketView::Auth(p) => p.spec_bytes(),
        }
    }

    /// Every part of the packet has an encoding.
    pub open spec fn fits(self) -> bool {
        match self {
            PacketView::Connect(p) => p.fits(),
            PacketView::Connack(p) => p.fits(),
            PacketView::Publish(p) => p.properties.fits(),
            PacketView::Puback(p) => p.fits(),
            PacketView::Pubrec(p) => p.fits(),
            PacketView::Pubrel(p) => p.fits(),
            PacketView::Pubcomp(p) => p.fits(),
            PacketView::Subscribe(p) => p.fits(),
            PacketView::Suback(p) => p.fits(),
            PacketView::Unsubscribe(p) => p.fits(),
            PacketView::Unsuback(p) => p.fits(),
            PacketView::Pingreq => true,
            PacketView::Pingresp => true,
            PacketView::Disconnect(p) => p.fits(),
            PacketView::Auth(p) => p.fits(),
        }
    }

    /// The packet's fixed header, for a body of `remaining_len` bytes.
    pub open spec fn spec_header(self, remaining_len: u32) -> Header {
        match self {
            PacketView::Publish(p) => Header {
                typ: PacketType::Publish,
                dup: p.dup,
                qos: p.qos_pid.qos(),
                retain: p.retain,
                remaining_len,
            },
            _ => Header {
                typ: self.typ(),
                dup: false,
                qos: QoS::Level0,
                retain: false,
                remaining_len,
            },
        }
    }

    /// What [`Packet::encode`] returns: fixed header and body, or
    /// `PayloadTooLong` where a part of the packet has no encoding, or
    /// `InvalidVarByteInt` for a body of more than [`VAR_INT_MAX`] bytes.
    pub open spec fn spec_encode(self) -> Result<Seq<u8>, ErrorV5View> {
        if !self.fits() {
            Err(ErrorV5View::Common(ErrorView::PayloadTooLong))
        } else if self.spec_body_bytes().len() > VAR_INT_MAX {
            Err(ErrorV5View::Common(ErrorView::InvalidVarByteInt))
        } else {
            Ok(
                self.spec_header(self.spec_body_bytes().len() as u32).spec_bytes()
                    + self.spec_body_bytes(),
            )
        }
    }
}

/// `InvalidRemainingLength` unless the body was used up.
fn check_whole(end: usize, len: usize) -> (res: Result<(), ErrorV5>)
    ensures
        end == len ==> res is Ok,
        end != len ==> res == Err::<(), ErrorV5>(ErrorV5::Common(Error::InvalidRemainingLength)),
{
    if end == len {
        Ok(())
    } else {
        Err(ErrorV5::Common(Error::InvalidRemainingLength))
    }
}

impl Header {
    /// The packet that this header stands for by itself: a ping request or
    /// a ping response, whatever remaining length the header announces; a
    /// disconnect or auth packet where the remaining length is zero; `None`
    /// for every other header.
    pub fn build_empty_packet(&self) -> (res: Option<Packet>)
        ensures
            match spec_empty_packet(*self) {
                Some(p) => res is Some && res->Some_0@ == p,
                None => res is None,
            },
            res is None ==> self.typ.spec_has_body(),
    {
        match self.typ {
            PacketType::Pingreq => Some(Packet::Pingreq),
            PacketType::Pingresp => Some(Packet::Pingresp),
            PacketType::Disconnect => if self.remaining_len == 0 {
                Some(Packet::Disconnect(Disconnect::new_normal()))
            } else {
                None
            },
            PacketType::Auth => if self.remaining_len == 0 {
                Some(Packet::Auth(Auth::new_success()))
            } else {
                None
            },
            _ => None,
        }
    }

    /// Decodes the body behind this header, which is of a type that has a
    /// body; `buf` holds exactly the body.
    #[verifier::rlimit(50)]
    pub fn decode_buffer(self, buf: &[u8]) -> (res: Result<Packet, ErrorV5>)
        requires
            self.typ.spec_has_body(),
        ensures
            agrees5(res, spec_decode_body(self, buf@)),
    {
        reveal(spec_decode_body);
        match self.typ {
            PacketType::Connect => decode_body_connect(self, buf),
            PacketType::Connack => decode_body_connack(self, buf),
            PacketType::Publish => decode_body_publish(self, buf),
            PacketType::Puback => decode_body_puback(self, buf),
            PacketType::Pubrec => decode_body_pubrec(self, buf),
            PacketType::Pubrel => decode_body_pubrel(self, buf),
            PacketType::Pubcomp => decode_body_pubcomp(self, buf),
            PacketType::Subscribe => decode_body_subscribe(self, buf),
            PacketType::Suback => decode_body_suback(self, buf),
            PacketType::Unsubscribe => decode_body_unsubscribe(self, buf),
            PacketType::Unsuback => decode_body_unsuback(self, buf),
            PacketType::Pingreq => Ok(Packet::Pingreq),
            PacketType::Pingresp => Ok(Packet::Pingresp),
            PacketType::Disconnect => decode_body_disconnect(self, buf),
            PacketType::Auth => decode_body_auth(self, buf),
        }
    }
}

/// Decodes the body of a connect packet; `buf` holds exactly the body.
fn decode_body_connect(h: Header, buf: &[u8]) -> (res: Result<Packet, ErrorV5>)
    ensures
        agrees5(res, spec_body_connect(h, buf@)),
{
    let mut offset: usize = 0;
    let p = Connect::decode(buf, &mut offset)?;
    check_whole(offset, buf.len())?;
    Ok(Packet::Connect(p))
}

/// Decodes the body of a connack packet; `buf` holds exactly the body.
fn decode_body_connack(h: Header, buf: &[u8]) -> (res: Result<Packet, ErrorV5>)
    ensures
        agrees5(res, spec_body_connack(h, buf@)),
{
    let mut offset: usize = 0;
    let p = Connack::decode(buf, &mut offset)?;
    check_whole(offset, buf.len())?;
    Ok(Packet::Connack(p))
}

/// Decodes the body of a publish packet; `buf` holds exactly the body.
fn decode_body_publish(h: Header, buf: &[u8]) -> (res: Result<Packet, ErrorV5>)
    ensures
        agrees5(res, spec_body_publish(h, buf@)),
{
    let mut offset: usize = 0;
    let p = Publish::decode(buf, &mut offset, h)?;
    check_whole(offset, buf.len())?;
    Ok(Packet::Publish(p))
}

/// Decodes the body of a puback packet; `buf` holds exactly the body.
fn decode_body_puback(h: Header, buf: &[u8]) -> (res: Result<Packet, ErrorV5>)
    ensures
        agrees5(res, spec_body_puback(h, buf@)),
{
    let mut offset: usize = 0;
    let p = Puback::decode(buf, &mut offset, h)?;
    check_whole(offset, buf.len())?;
    Ok(Packet::Puback(p))
}

/// Decodes the body of a pubrec packet; `buf` holds exactly the body.
fn decode_body_pubrec(h: Header, buf: &[u8]) -> (res: Result<Packet, ErrorV5>)
    ensures
        agrees5(res, spec_body_pubrec(h, buf@)),
{
    let mut offset: usize = 0;
    let p = Pubrec::decode(buf, &mut offset, h)?;
    check_whole(offset, buf.len())?;
    Ok(Packet::Pubrec(p))
}

/// Decodes the body of a pubrel packet; `buf` holds exactly the body.
fn decode_body_pubrel(h: Header, buf: &[u8]) -> (res: Result<Packet, ErrorV5>)
    ensures
        agrees5(res, spec_body_pubrel(h, buf@)),
{
    let mut offset: usize = 0;
    let p = Pubrel::decode(buf, &mut offset, h)?;
    check_whole(offset, buf.len())?;
    Ok(Packet::Pubrel(p))
}

/// Decodes the body of a pubcomp packet; `buf` holds exactly the body.
fn decode_body_pubcomp(h: Header, buf: &[u8]) -> (res: Result<Packet, ErrorV5>)
    ensures
        agrees5(res, spec_body_pubcomp(h, buf@)),
{
    let mut offset: usize = 0;
    let p = Pubcomp::decode(buf, &mut offset, h)?;
    check_whole(offset, buf.len())?;
    Ok(Packet::Pubcomp(p))
}

/// Decodes the body of a subscribe packet; `buf` holds exactly the body.
fn decode_body_subscribe(h: Header, buf: &[u8]) -> (res: Result<Packet, ErrorV5>)
    ensures
        agrees5(res, spec_body_subscribe(h, buf@)),
{
    let mut offset: usize = 0;
    let p = Subscribe::decode(buf, &mut offset)?;
    check_whole(offset, buf.len())?;
    Ok(Packet::Subscribe(p))
}

/// Decodes the body of a suback packet; `buf` holds exactly the body.
fn decode_body_suback(h: Header, buf: &[u8]) -> (res: Result<Packet, ErrorV5>)
    ensures
        agrees5(res, spec_body_suback(h, buf@)),
{
    let mut offset: usize = 0;
    let p = Suback::decode(buf, &mut offset)?;
    check_whole(offset, buf.len())?;
    Ok(Packet::Suback(p))
}

/// Decodes the body of a unsubscribe packet; `buf` holds exactly the body.
fn decode_body_unsubscribe(h: Header, buf: &[u8]) -> (res: Result<Packet, ErrorV5>)
    ensures
        agrees5(res, spec_body_unsubscribe(h, buf@)),
{
    let mut offset: usize = 0;
    let p = Unsubscribe::decode(buf, &mut offset)?;
    check_whole(offset, buf.len())?;
    Ok(Packet::Unsubscribe(p))
}

/// Decodes the body of a unsuback packet; `buf` holds exactly the body.
fn decode_body_unsuback(h: Header, buf: &[u8]) -> (res: Result<Packet, ErrorV5>)
    ensures
        agrees5(res, spec_body_unsuback(h, buf@)),
{
    let mut offset: usize = 0;
    let p = Unsuback::decode(buf, &mut offset)?;
    check_whole(offset, buf.len())?;
    Ok(Packet::Unsuback(p))
}

/// Decodes the body of a disconnect packet; `buf` holds exactly the body.
fn decode_body_disconnect(h: Header, buf: &[u8]) -> (res: Result<Packet, ErrorV5>)
    ensures
        agrees5(res, spec_body_disconnect(h, buf@)),
{
    let mut offset: usize = 0;
    let p = Disconnect::decode(buf, &mut offset, h)?;
    check_whole(offset, buf.len())?;
    Ok(Packet::Disconnect(p))
}

/// Decodes the body of a auth packet; `buf` holds exactly the body.
fn decode_body_auth(h: Header, buf: &[u8]) -> (res: Result<Packet, ErrorV5>)
    ensures
        agrees5(res, spec_body_auth(h, buf@)),
{
    let mut offset: usize = 0;
    let p = Auth::decode(buf, &mut offset, h)?;
    check_whole(offset, buf.len())?;
    Ok(Packet::Auth(p))
}

impl Packet {
    /// The packet's type.
    pub fn get_type(&self) -> (t: PacketType)
        ensures
            t == self@.typ(),
    {
        match self {
            Packet::Connect(_) => PacketType::Connect,
            Packet::Connack(_) => PacketType::Connack,
            Packet::Publish(_) => PacketType::Publish,
            Packet::Puback(_) => PacketType::Puback,
            Packet::Pubrec(_) => PacketType::Pubrec,
            Packet::Pubrel(_) => PacketType::Pubrel,
            Packet::Pubcomp(_) => PacketType::Pubcomp,
            Packet::Subscribe(_) => PacketType::Subscribe,
            Packet::Suback(_) => PacketType::Suback,
            Packet::Unsubscribe(_) => PacketType::Unsubscribe,
            Packet::Unsuback(_) => PacketType::Unsuback,
            Packet::Pingreq => PacketType::Pingreq,
            Packet::Pingresp => PacketType::Pingresp,
            Packet::Disconnect(_) => PacketType::Disconnect,
            Packet::Auth(_) => PacketType::Auth,
        }
    }

    /// Decodes the packet at the start of `buf`, and says how many bytes it
    /// has. `Ok(None)` where `buf` ends before the packet does.
    pub fn decode_with_len(buf: &[u8]) -> (res: Result<Option<(Packet, usize)>, ErrorV5>)
        ensures
            match spec_decode_packet(buf@) {
                Ok(Some((p, n))) => res is Ok && res->Ok_0 is Some && res->Ok_0->Some_0.0@ == p
                    && res->Ok_0->Some_0.1 == n,
                Ok(None) => res is Ok && res->Ok_0 is None,
                Err(e) => res is Err && res->Err_0@ == e,
            },
    {
        let mut offset: usize = 0;
        let header = match Header::decode_at(buf, &mut offset) {
            Ok(h) => h,
            Err(e) => {
                if e.is_eof() {
                    return Ok(None);
                }
                return Err(ErrorV5::Common(e));
            },
        };
        match header.build_empty_packet() {
            Some(p) => {
                return Ok(Some((p, offset)));
            },
            None => {},
        }
        let body_len: usize = header.remaining_len();
        if buf.len() - offset < body_len {
            return Ok(None);
        }
        let end: usize = offset + body_len;
        match header.decode_buffer(slice_subrange(buf, offset, end)) {
            Ok(p) => Ok(Some((p, end))),
            Err(e) => {
                if e.is_eof() {
                    Ok(None)
                } else {
                    Err(e)
                }
            },
        }
    }

    /// Decodes the packet at the start of `buf`. `Ok(None)` where `buf` ends
    /// before the packet does.
    pub fn decode(buf: &[u8]) -> (res: Result<Option<Packet>, ErrorV5>)
        ensures
            match spec_decode_packet(buf@) {
                Ok(Some((p, n))) => res is Ok && res->Ok_0 is Some && res->Ok_0->Some_0@ == p,
                Ok(None) => res is Ok && res->Ok_0 is None,
                Err(e) => res is Err && res->Err_0@ == e,
            },
    {
        match Self::decode_with_len(buf)? {
            Some((p, _)) => Ok(Some(p)),
            None => Ok(None),
        }
    }

    /// Appends the body of the packet, or fails with `PayloadTooLong`,
    /// leaving `out` as it was, where a part of the packet has no encoding.
    pub fn encode_body(&self, out: &mut Vec<u8>) -> (res: Result<(), ErrorV5>)
        ensures
            match res {
                Ok(_) => self@.fits() && final(out)@ == old(out)@ + self@.spec_body_bytes(),
                Err(e) => e == ErrorV5::Common(Error::PayloadTooLong) && !self@.fits() && final(out)@
                    == old(out)@,
            },
    {
        match self {
            Packet::Connect(p) => p.encode(out),
            Packet::Connack(p) => p.encode(out),
            Packet::Publish(p) => p.encode(out),
            Packet::Puback(p) => p.encode(out),
            Packet::Pubrec(p) => p.encode(out),
            Packet::Pubrel(p) => p.encode(out),
            Packet::Pubcomp(p) => p.encode(out),
            Packet::Subscribe(p) => p.encode(out),
            Packet::Suback(p) => p.encode(out),
            Packet::Unsubscribe(p) => p.encode(out),
            Packet::Unsuback(p) => p.encode(out),
            Packet::Pingreq => {
                assert(out@ =~= old(out)@ + Seq::<u8>::empty());
                Ok(())
            },
            Packet::Pingresp => {
                assert(out@ =~= old(out)@ + Seq::<u8>::empty());
                Ok(())
            },
            Packet::Disconnect(p) => p.encode(out),
            Packet::Auth(p) => p.encode(out),
        }
    }

    /// The packet's fixed header, for a body of `remaining_len` bytes.
    pub fn header(&self, remaining_len: u32) -> (h: Header)
        ensures
            h == self@.spec_header(remaining_len),
    {
        match self {
            Packet::Publish(p) => Header::new(
                PacketType::Publish,
                p.dup,
                p.qos_pid.qos(),
                p.retain,
                remaining_len,
            ),
            _ => Header::new(self.get_type(), false, QoS::Level0, false, remaining_len),
        }
    }

    /// The packet's bytes: fixed header, then body.
    pub fn encode(&self) -> (res: Result<Vec<u8>, ErrorV5>)
        ensures
            agrees5(res, self@.spec_encode()),
    {
        let mut body: Vec<u8> = Vec::new();
        self.encode_body(&mut body)?;
        assert(body@ =~= self@.spec_body_bytes());
        if body.len() > 268_435_455 {
            return Err(ErrorV5::Common(Error::InvalidVarByteInt));
        }
        let header = self.header(body.len() as u32);
        let mut out: Vec<u8> = Vec::new();
        let r = header.encode(&mut out);
        write_raw(&mut out, body.as_slice());
        assert(out@ =~= header.spec_bytes() + body@);
        Ok(out)
    }

    /// The packet's bytes in a shared buffer: fixed header, then body.
    pub fn encode_to_bytes(&self) -> (res: Result<Bytes, ErrorV5>)
        ensures
            match self@.spec_encode() {
                Ok(b) => res is Ok && bytes_contents(res->Ok_0) == b,
                Err(e) => res is Err && res->Err_0@ == e,
            },
    {
        let v = self.encode()?;
        Ok(bytes_from_slice(v.as_slice()))
    }

    /// The number of bytes of the packet's body, if every part has an
    /// encoding.
    pub fn encode_len(&self) -> (res: Result<usize, ErrorV5>)
        ensures
            match res {
                Ok(n) => self@.fits() && n == self@.spec_body_bytes().len(),
                Err(e) => e == ErrorV5::Common(Error::PayloadTooLong) && !self@.fits(),
            },
    {
        let mut scratch: Vec<u8> = Vec::new();
        self.encode_body(&mut scratch)?;
        assert(scratch@ =~= self@.spec_body_bytes());
        Ok(scratch.len())
    }
}

/// A packet's encoding has as many bytes as [`crate::common::utils::total_len`]
/// gives for the length of its body.
pub proof fn lemma_length_agreement(p: PacketView)
    requires
        p.spec_encode() is Ok,
    ensures
        spec_total_len(p.spec_body_bytes().len() as int) == Ok::<int, ErrorView>(
            p.spec_encode()->Ok_0.len() as int,
        ),
{
    let n = p.spec_body_bytes().len() as u32;
    crate::common::utils::lemma_var_int_round_trip(n, Seq::empty(), Seq::empty());
}

} // verus!
