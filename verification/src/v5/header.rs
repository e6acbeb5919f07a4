//! The fixed header of a 5.0 packet.

use crate::common::error::{agrees, read_agrees, Error, ErrorView};
use crate::common::types::QoS;
use crate::common::utils::{
    decode_raw_header, spec_decode_raw_header, spec_var_int_bytes, write_u8, write_var_int,
    VAR_INT_MAX,
};
use vstd::prelude::*;

verus! {

/// The kind of a control packet.
#[derive(Debug, Clone, Copy, PartialEq, Eq, Structural, Hash)]
pub enum PacketType {
    Connect,
    Connack,
    Publish,
    Puback,
    Pubrec,
    Pubrel,
    Pubcomp,
    Subscribe,
    Suback,
    Unsubscribe,
    Unsuback,
    Pingreq,
    Pingresp,
    Disconnect,
    Auth,
}

impl PacketType {
    /// The type's code: the upper four bits of a packet's first byte.
    pub open spec fn spec_code(self) -> u8 {
        match self {
            PacketType::Connect => 1,
            PacketType::Connack => 2,
            PacketType::Publish => 3,
            PacketType::Puback => 4,
            PacketType::Pubrec => 5,
            PacketType::Pubrel => 6,
            PacketType::Pubcomp => 7,
            PacketType::Subscribe => 8,
            PacketType::Suback => 9,
            PacketType::Unsubscribe => 10,
            PacketType::Unsuback => 11,
            PacketType::Pingreq => 12,
            PacketType::Pingresp => 13,
            PacketType::Disconnect => 14,
            PacketType::Auth => 15,
        }
    }

    /// The type with the given code, if any.
    pub open spec fn spec_from_code(code: u8) -> Option<PacketType> {
        match code {
            1 => Some(PacketType::Connect),
            2 => Some(PacketType::Connack),
            3 => Some(PacketType::Publish),
            4 => Some(PacketType::Puback),
            5 => Some(PacketType::Pubrec),
            6 => Some(PacketType::Pubrel),
            7 => Some(PacketType::Pubcomp),
            8 => Some(PacketType::Subscribe),
            9 => Some(PacketType::Suback),
            10 => Some(PacketType::Unsubscribe),
            11 => Some(PacketType::Unsuback),
            12 => Some(PacketType::Pingreq),
            13 => Some(PacketType::Pingresp),
            14 => Some(PacketType::Disconnect),
            15 => Some(PacketType::Auth),
            _ => None,
        }
    }

    /// The flags that a packet of this type must carry in the lower four
    /// bits of its first byte. A publish packet carries its own, see
    /// [`Header::spec_new_with`].
    pub open spec fn spec_required_flags(self) -> u8 {
        match self {
            PacketType::Pubrel => 2,
            PacketType::Subscribe => 2,
            PacketType::Unsubscribe => 2,
            _ => 0,
        }
    }

    /// Whether packets of this type have a body to decode. Those that
    /// have none, a ping request and a ping response, stand
    /// whole in their fixed header.
    pub open spec fn spec_has_body(self) -> bool {
        match self {
            PacketType::Pingreq => false,
            PacketType::Pingresp => false,
            _ => true,
        }
    }

    /// Whether packets of this type have a body to decode.
    #[verifier::when_used_as_spec(spec_has_body)]
    pub fn has_body(self) -> (b: bool)
        ensures
            b == self.spec_has_body(),
    {
        match self {
            PacketType::Pingreq | PacketType::Pingresp => false,
            _ => true,
        }
    }

    /// The type's code.
    #[verifier::when_used_as_spec(spec_code)]
    pub fn code(self) -> (c: u8)
        ensures
            c == self.spec_code(),
    {
        match self {
            PacketType::Connect => 1,
            PacketType::Connack => 2,
            PacketType::Publish => 3,
            PacketType::Puback => 4,
            PacketType::Pubrec => 5,
            PacketType::Pubrel => 6,
            PacketType::Pubcomp => 7,
            PacketType::Subscribe => 8,
            PacketType::Suback => 9,
            PacketType::Unsubscribe => 10,
            PacketType::Unsuback => 11,
            PacketType::Pingreq => 12,
            PacketType::Pingresp => 13,
            PacketType::Disconnect => 14,
            PacketType::Auth => 15,
        }
    }

    /// The type with the given code, if any.
    pub fn from_code(code: u8) -> (t: Option<PacketType>)
        ensures
            t == Self::spec_from_code(code),
    {
        match code {
            1 => Some(PacketType::Connect),
            2 => Some(PacketType::Connack),
            3 => Some(PacketType::Publish),
            4 => Some(PacketType::Puback),
            5 => Some(PacketType::Pubrec),
            6 => Some(PacketType::Pubrel),
            7 => Some(PacketType::Pubcomp),
            8 => Some(PacketType::Subscribe),
            9 => Some(PacketType::Suback),
            10 => Some(PacketType::Unsubscribe),
            11 => Some(PacketType::Unsuback),
            12 => Some(PacketType::Pingreq),
            13 => Some(PacketType::Pingresp),
            14 => Some(PacketType::Disconnect),
            15 => Some(PacketType::Auth),
            _ => None,
        }
    }

    /// The flags that a packet of this type must carry, publish aside.
    #[verifier::when_used_as_spec(spec_required_flags)]
    pub fn required_flags(self) -> (f: u8)
        ensures
            f == self.spec_required_flags(),
    {
        match self {
            PacketType::Pubrel | PacketType::Subscribe | PacketType::Unsubscribe => 2,
            _ => 0,
        }
    }
}

/// A decoded fixed header.
#[derive(Debug, Clone, Copy, PartialEq, Eq, Structural, Hash)]
pub struct Header {
    pub typ: PacketType,
    pub dup: bool,
    pub qos: QoS,
    pub retain: bool,
    pub remaining_len: u32,
}

impl View for Header {
    type V = Header;

    open spec fn view(&self) -> Header {
        *self
    }
}

impl Header {
    /// What [`Header::new_with`] returns. The first byte holds the type in
    /// its upper and the flags in its lower four bits. A publish packet's
    /// flags are dup, the two bits of the quality of service, and retain;
    /// every other type has one legal flags value.
    pub open spec fn spec_new_with(hd: u8, remaining_len: u32) -> Result<Header, ErrorView> {
        let flags = hd % 16;
        match PacketType::spec_from_code(hd / 16) {
            None => Err(ErrorView::InvalidHeader),
            Some(PacketType::Publish) => match QoS::spec_from_u8((flags / 2) % 4) {
                Err(e) => Err(e),
                Ok(qos) => Ok(
                    Header {
                        typ: PacketType::Publish,
                        dup: flags / 8 == 1,
                        qos,
                        retain: flags % 2 == 1,
                        remaining_len,
                    },
                ),
            },
            Some(typ) => if flags == typ.spec_required_flags() {
                Ok(Header { typ, dup: false, qos: QoS::Level0, retain: false, remaining_len })
            } else {
                Err(ErrorView::InvalidHeader)
            },
        }
    }

    /// The parser behind [`Header::decode`].
    pub open spec fn spec_decode(s: Seq<u8>, off: int) -> Result<(Header, int), ErrorView> {
        match spec_decode_raw_header(s, off) {
            Err(e) => Err(e),
            Ok(((hd, len), end)) => match Self::spec_new_with(hd, len) {
                Err(e) => Err(e),
                Ok(h) => Ok((h, end)),
            },
        }
    }

    /// The first byte of the header.
    pub open spec fn spec_first_byte(self) -> u8 {
        if self.typ == PacketType::Publish {
            (48 + (if self.dup {
                8int
            } else {
                0int
            }) + self.qos.spec_to_u8() * 2 + (if self.retain {
                1int
            } else {
                0int
            })) as u8
        } else {
            (self.typ.spec_code() * 16 + self.typ.spec_required_flags()) as u8
        }
    }

    /// The bytes of the header: the first byte and the remaining length.
    pub open spec fn spec_bytes(self) -> Seq<u8> {
        seq![self.spec_first_byte()] + spec_var_int_bytes(self.remaining_len)
    }

    /// A header a packet can carry: only publish has dup, quality of service
    /// and retain, and the remaining length fits its encoding.
    pub open spec fn wf(self) -> bool {
        &&& self.remaining_len <= VAR_INT_MAX
        &&& self.typ != PacketType::Publish ==> !self.dup && !self.retain && self.qos
            == QoS::Level0
    }

    /// A header from its parts.
    pub fn new(typ: PacketType, dup: bool, qos: QoS, retain: bool, remaining_len: u32) -> (h:
        Header)
        ensures
            h == (Header { typ, dup, qos, retain, remaining_len }),
    {
        Header { typ, dup, qos, retain, remaining_len }
    }

    /// The header with first byte `hd`: `InvalidHeader` for an unknown type
    /// or flags the type does not allow, `InvalidQos(3)` for a publish
    /// packet with both quality of service bits set.
    pub fn new_with(hd: u8, remaining_len: u32) -> (res: Result<Header, Error>)
        ensures
            agrees(res, Self::spec_new_with(hd, remaining_len)),
    {
        let flags: u8 = hd % 16;
        match PacketType::from_code(hd / 16) {
            None => Err(Error::InvalidHeader),
            Some(PacketType::Publish) => {
                let qos = QoS::from_u8((flags / 2) % 4)?;
                Ok(
                    Header {
                        typ: PacketType::Publish,
                        dup: flags / 8 == 1,
                        qos,
                        retain: flags % 2 == 1,
                        remaining_len,
                    },
                )
            },
            Some(typ) => {
                if flags == typ.required_flags() {
                    Ok(Header { typ, dup: false, qos: QoS::Level0, retain: false, remaining_len })
                } else {
                    Err(Error::InvalidHeader)
                }
            },
        }
    }

    /// Reads a fixed header at the start of `buf`.
    pub fn decode(buf: &[u8]) -> (res: Result<Header, Error>)
        ensures
            match Self::spec_decode(buf@, 0) {
                Ok((h, _)) => res is Ok && res->Ok_0 == h,
                Err(e) => res is Err && res->Err_0@ == e,
            },
    {
        let mut offset: usize = 0;
        Self::decode_at(buf, &mut offset)
    }

    /// Reads a fixed header at `offset` of `buf`.
    pub fn decode_at(buf: &[u8], offset: &mut usize) -> (res: Result<Header, Error>)
        ensures
            read_agrees(res, *final(offset), Self::spec_decode(buf@, *old(offset) as int)),
            res matches Ok(h) ==> h.remaining_len <= VAR_INT_MAX,
    {
        let (hd, len) = decode_raw_header(buf, offset)?;
        Header::new_with(hd, len)
    }

    /// The first byte of the header.
    pub fn first_byte(&self) -> (b: u8)
        ensures
            b == self.spec_first_byte(),
    {
        match self.typ {
            PacketType::Publish => {
                let d: u8 = if self.dup {
                    8
                } else {
                    0
                };
                let r: u8 = if self.retain {
                    1
                } else {
                    0
                };
                48 + d + self.qos.to_u8() * 2 + r
            },
            typ => typ.code() * 16 + typ.required_flags(),
        }
    }

    /// Appends the header, or fails with `InvalidVarByteInt`, leaving `out`
    /// as it was, where the remaining length is above [`VAR_INT_MAX`].
    pub fn encode(&self, out: &mut Vec<u8>) -> (res: Result<(), Error>)
        ensures
            self.remaining_len <= VAR_INT_MAX ==> res is Ok && final(out)@ == old(out)@
                + self.spec_bytes(),
            self.remaining_len > VAR_INT_MAX ==> res == Err::<(), Error>(Error::InvalidVarByteInt)
                && final(out)@ == old(out)@,
    {
        if self.remaining_len > VAR_INT_MAX {
            return Err(Error::InvalidVarByteInt);
        }
        write_u8(out, self.first_byte());
        let r = write_var_int(out, self.remaining_len);
        assert(out@ =~= old(out)@ + self.spec_bytes());
        Ok(())
    }

    /// The remaining length as a `usize`.
    pub fn remaining_len(&self) -> (n: usize)
        ensures
            n == self.remaining_len,
    {
        self.remaining_len as usize
    }

    /// Whether `err` says that the input ended too early.
    pub fn is_eof_error(err: &Error) -> (b: bool)
        ensures
            b == (err@ == ErrorView::UnexpectedEof),
    {
        err.is_eof()
    }
}

/// Changing the flags of a first byte whose type has one legal flags value
/// gives `InvalidHeader`; a publish packet is rejected exactly where both
/// quality of service bits are set, with `InvalidQos(3)`.
pub proof fn lemma_flags_are_checked(hd: u8, remaining_len: u32)
    ensures
        match PacketType::spec_from_code(hd / 16) {
            None => Header::spec_new_with(hd, remaining_len) == Err::<Header, ErrorView>(
                ErrorView::InvalidHeader,
            ),
            Some(PacketType::Publish) => if (hd % 16 / 2) % 4 == 3 {
                Header::spec_new_with(hd, remaining_len) == Err::<Header, ErrorView>(
                    ErrorView::InvalidQos(3),
                )
            } else {
                Header::spec_new_with(hd, remaining_len) is Ok
            },
            Some(typ) => if hd % 16 == typ.spec_required_flags() {
                Header::spec_new_with(hd, remaining_len) is Ok
            } else {
                Header::spec_new_with(hd, remaining_len) == Err::<Header, ErrorView>(
                    ErrorView::InvalidHeader,
                )
            },
        },
{
}

/// A header read back from its own bytes is the header.
pub proof fn lemma_header_round_trip(h: Header, rest: Seq<u8>)
    requires
        h.wf(),
    ensures
        Header::spec_decode(h.spec_bytes() + rest, 0) == Ok::<(Header, int), ErrorView>(
            (h, h.spec_bytes().len() as int),
        ),
{
    crate::common::utils::lemma_var_int_round_trip(h.remaining_len, seq![h.spec_first_byte()], rest);
    let s = h.spec_bytes() + rest;
    assert(s =~= seq![h.spec_first_byte()] + spec_var_int_bytes(h.remaining_len) + rest);
    assert(s[0] == h.spec_first_byte());
}

} // verus!
