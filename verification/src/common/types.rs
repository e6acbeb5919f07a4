//! Small validated values: packet identifiers, quality of service, protocol.

use crate::common::error::{read_agrees, Error, ErrorView};
use crate::common::outside::{bytes_as_slice, bytes_contents, bytes_from_slice};
use crate::common::utils::{
    read_string, read_u16, read_u8, spec_read_string, spec_read_u16, spec_read_u8,
    spec_string_bytes, spec_u16_bytes, write_string, write_u8, VAR_INT_MAX,
};
use bytes::Bytes;
use vstd::prelude::*;
use vstd::std_specs::convert::TryFromSpecImpl;
use vstd::utf8::{encode_utf8, is_ascii_chars, is_ascii_chars_encode_utf8};

verus! {

/// Packet identifier: a 16-bit value that is never zero.
#[derive(Debug, Clone, Copy, PartialEq, Eq, Structural, Hash, PartialOrd, Ord)]
pub struct Pid(u16);

impl View for Pid {
    type V = u16;

    open spec fn view(&self) -> u16 {
        self.value_spec()
    }
}

impl Pid {
    /// The identifier's number.
    pub closed spec fn value_spec(&self) -> u16 {
        self.0
    }

    /// The identifier with the given number.
    pub closed spec fn spec_new(value: u16) -> Pid {
        Pid(value)
    }

    /// The identifier with a given number has that number.
    pub proof fn lemma_spec_new(value: u16)
        ensures
            Self::spec_new(value)@ == value,
    {
    }

    /// The identifier is nonzero.
    pub open spec fn wf(&self) -> bool {
        self.value_spec() != 0
    }

    #[verifier::type_invariant]
    spec fn inv(self) -> bool {
        self.0 != 0
    }

    /// What [`Pid::try_from`] returns for `value`.
    pub open spec fn spec_from_u16(value: u16) -> Result<u16, ErrorView> {
        if value == 0 {
            Err(ErrorView::InvalidPid)
        } else {
            Ok(value)
        }
    }

    /// The identifier's number, which is never zero: there is no other
    /// way to make an identifier than [`Pid::from_u16`].
    pub fn value(&self) -> (v: u16)
        ensures
            v == self.value_spec(),
            v != 0,
    {
        proof {
            use_type_invariant(self);
        }
        self.0
    }

    /// The identifier with number `value`; fails with `InvalidPid` on zero.
    pub fn from_u16(value: u16) -> (res: Result<Pid, Error>)
        ensures
            crate::common::error::agrees(res, Self::spec_from_u16(value)),
            res matches Ok(p) ==> p.wf() && p == Self::spec_new(value),
    {
        if value == 0 {
            Err(Error::InvalidPid)
        } else {
            Ok(Pid(value))
        }
    }
}

impl TryFrom<u16> for Pid {
    type Error = Error;

    fn try_from(value: u16) -> (res: Result<Pid, Error>) {
        Pid::from_u16(value)
    }
}

impl TryFromSpecImpl<u16> for Pid {
    open spec fn obeys_try_from_spec() -> bool {
        true
    }

    open spec fn try_from_spec(value: u16) -> Result<Pid, Error> {
        if value == 0 {
            Err(Error::InvalidPid)
        } else {
            Ok(Pid::spec_new(value))
        }
    }
}

/// The identifier that a client gives itself.
pub type ClientId = String;

/// The name a client logs in with.
pub type Username = String;

/// An owned buffer of bytes that the codec carries as it is.
#[derive(Debug, Clone, PartialEq, Eq, Hash)]
pub struct VarBytes(pub Bytes);

impl View for VarBytes {
    type V = Seq<u8>;

    open spec fn view(&self) -> Seq<u8> {
        bytes_contents(self.0)
    }
}

impl VarBytes {
    /// A buffer that holds a copy of `data`.
    pub fn from_slice(data: &[u8]) -> (v: VarBytes)
        ensures
            v@ == data@,
    {
        VarBytes(bytes_from_slice(data))
    }

    /// The number of bytes in the buffer.
    pub fn len(&self) -> (n: usize)
        ensures
            n == self@.len(),
    {
        bytes_as_slice(&self.0).len()
    }

    /// Whether the buffer holds no byte.
    pub fn is_empty(&self) -> (b: bool)
        ensures
            b == (self@.len() == 0),
    {
        bytes_as_slice(&self.0).len() == 0
    }

    /// The bytes of the buffer.
    pub fn as_slice(&self) -> (s: &[u8])
        ensures
            s@ == self@,
    {
        bytes_as_slice(&self.0)
    }
}

/// A variable byte integer: a value of at most 2^28 - 1.
#[derive(Debug, Clone, Copy, PartialEq, Eq, Structural, Hash, PartialOrd, Ord)]
pub struct VarByteInt(u32);

impl View for VarByteInt {
    type V = u32;

    open spec fn view(&self) -> u32 {
        self.value_spec()
    }
}

impl VarByteInt {
    /// The integer's value.
    pub closed spec fn value_spec(&self) -> u32 {
        self.0
    }

    #[verifier::type_invariant]
    spec fn inv(self) -> bool {
        self.0 <= VAR_INT_MAX
    }

    /// The integer with the given value.
    pub closed spec fn spec_new(value: u32) -> VarByteInt {
        VarByteInt(value)
    }

    /// The integer with a given value has that value.
    pub proof fn lemma_spec_new(value: u32)
        ensures
            Self::spec_new(value)@ == value,
    {
    }

    /// What [`VarByteInt::from_u32`] returns for `value`.
    pub open spec fn spec_from_u32(value: u32) -> Result<u32, ErrorView> {
        if value > VAR_INT_MAX {
            Err(ErrorView::InvalidVarByteInt)
        } else {
            Ok(value)
        }
    }

    /// The integer's value, which is at most [`VAR_INT_MAX`]: there is no
    /// other way to make one than [`VarByteInt::from_u32`].
    pub fn value(&self) -> (v: u32)
        ensures
            v == self.value_spec(),
            v <= VAR_INT_MAX,
    {
        proof {
            use_type_invariant(self);
        }
        self.0
    }

    /// The integer with the given value; fails with `InvalidVarByteInt`
    /// above [`VAR_INT_MAX`].
    pub fn from_u32(value: u32) -> (res: Result<VarByteInt, Error>)
        ensures
            crate::common::error::agrees(res, Self::spec_from_u32(value)),
            res matches Ok(v) ==> v == Self::spec_new(value),
    {
        if value > VAR_INT_MAX {
            Err(Error::InvalidVarByteInt)
        } else {
            Ok(VarByteInt(value))
        }
    }
}

impl TryFrom<u32> for VarByteInt {
    type Error = Error;

    fn try_from(value: u32) -> (res: Result<VarByteInt, Error>) {
        VarByteInt::from_u32(value)
    }
}

impl TryFromSpecImpl<u32> for VarByteInt {
    open spec fn obeys_try_from_spec() -> bool {
        true
    }

    open spec fn try_from_spec(value: u32) -> Result<VarByteInt, Error> {
        if value > VAR_INT_MAX {
            Err(Error::InvalidVarByteInt)
        } else {
            Ok(VarByteInt::spec_new(value))
        }
    }
}

/// Quality of service level.
#[derive(Debug, Clone, Copy, PartialEq, Eq, Structural, Hash, PartialOrd, Ord)]
pub enum QoS {
    /// At most once.
    Level0,
    /// At least once.
    Level1,
    /// Exactly once.
    Level2,
}

impl View for QoS {
    type V = QoS;

    open spec fn view(&self) -> QoS {
        *self
    }
}

impl QoS {
    /// The level's number on the wire.
    pub open spec fn spec_to_u8(self) -> u8 {
        match self {
            QoS::Level0 => 0,
            QoS::Level1 => 1,
            QoS::Level2 => 2,
        }
    }

    /// What [`QoS::from_u8`] returns for `byte`.
    pub open spec fn spec_from_u8(byte: u8) -> Result<QoS, ErrorView> {
        if byte == 0 {
            Ok(QoS::Level0)
        } else if byte == 1 {
            Ok(QoS::Level1)
        } else if byte == 2 {
            Ok(QoS::Level2)
        } else {
            Err(ErrorView::InvalidQos(byte))
        }
    }

    /// The level with number `byte`; fails with `InvalidQos(byte)` above 2.
    pub fn from_u8(byte: u8) -> (res: Result<QoS, Error>)
        ensures
            crate::common::error::agrees(res, Self::spec_from_u8(byte)),
    {
        match byte {
            0 => Ok(QoS::Level0),
            1 => Ok(QoS::Level1),
            2 => Ok(QoS::Level2),
            n => Err(Error::InvalidQos(n)),
        }
    }

    /// The level's number on the wire.
    #[verifier::when_used_as_spec(spec_to_u8)]
    pub fn to_u8(self) -> (b: u8)
        ensures
            b == self.spec_to_u8(),
    {
        match self {
            QoS::Level0 => 0,
            QoS::Level1 => 1,
            QoS::Level2 => 2,
        }
    }
}

/// Quality of service together with the packet identifier it requires.
#[derive(Debug, Clone, Copy, PartialEq, Eq, Structural, Hash)]
pub enum QosPid {
    /// Level 0 carries no identifier.
    Level0,
    /// Level 1 with its identifier.
    Level1(Pid),
    /// Level 2 with its identifier.
    Level2(Pid),
}

/// Mathematical model of [`QosPid`].
pub enum QosPidView {
    Level0,
    Level1(u16),
    Level2(u16),
}

impl View for QosPid {
    type V = QosPidView;

    open spec fn view(&self) -> QosPidView {
        match *self {
            QosPid::Level0 => QosPidView::Level0,
            QosPid::Level1(p) => QosPidView::Level1(p@),
            QosPid::Level2(p) => QosPidView::Level2(p@),
        }
    }
}

impl QosPidView {
    /// The level without the identifier.
    pub open spec fn qos(self) -> QoS {
        match self {
            QosPidView::Level0 => QoS::Level0,
            QosPidView::Level1(_) => QoS::Level1,
            QosPidView::Level2(_) => QoS::Level2,
        }
    }

    /// The identifier's bytes on the wire: none at level 0.
    pub open spec fn pid_bytes(self) -> Seq<u8> {
        match self {
            QosPidView::Level0 => Seq::empty(),
            QosPidView::Level1(p) => spec_u16_bytes(p),
            QosPidView::Level2(p) => spec_u16_bytes(p),
        }
    }

    /// An identifier, where there is one, is nonzero.
    pub open spec fn wf(self) -> bool {
        match self {
            QosPidView::Level0 => true,
            QosPidView::Level1(p) => p != 0,
            QosPidView::Level2(p) => p != 0,
        }
    }
}

impl QosPid {
    /// The level without the identifier.
    pub fn qos(&self) -> (q: QoS)
        ensures
            q == self@.qos(),
    {
        match self {
            QosPid::Level0 => QoS::Level0,
            QosPid::Level1(_) => QoS::Level1,
            QosPid::Level2(_) => QoS::Level2,
        }
    }

    /// The identifier, if the level carries one.
    pub fn pid(&self) -> (p: Option<Pid>)
        ensures
            match *self {
                QosPid::Level0 => p is None,
                QosPid::Level1(x) => p == Some(x),
                QosPid::Level2(x) => p == Some(x),
            },
    {
        match self {
            QosPid::Level0 => None,
            QosPid::Level1(p) => Some(*p),
            QosPid::Level2(p) => Some(*p),
        }
    }
}

/// The packet identifier of a publish packet, read at `off`: present
/// exactly above quality of service 0.
pub open spec fn spec_read_qos_pid(s: Seq<u8>, off: int, qos: QoS) -> Result<
    (QosPidView, int),
    ErrorView,
> {
    match qos {
        QoS::Level0 => Ok((QosPidView::Level0, off)),
        _ => match spec_read_u16(s, off) {
            Err(e) => Err(e),
            Ok((raw, end)) => match Pid::spec_from_u16(raw) {
                Err(e) => Err(e),
                Ok(pid) => Ok(
                    (
                        if qos == QoS::Level1 {
                            QosPidView::Level1(pid)
                        } else {
                            QosPidView::Level2(pid)
                        },
                        end,
                    ),
                ),
            },
        },
    }
}

/// Reads the packet identifier of a publish packet.
pub fn read_qos_pid(buf: &[u8], offset: &mut usize, qos: QoS) -> (res: Result<QosPid, Error>)
    ensures
        read_agrees(res, *final(offset), spec_read_qos_pid(buf@, *old(offset) as int, qos)),
        res matches Ok(q) ==> q@.wf(),
{
    match qos {
        QoS::Level0 => Ok(QosPid::Level0),
        QoS::Level1 => {
            let pid = Pid::from_u16(read_u16(buf, offset)?)?;
            Ok(QosPid::Level1(pid))
        },
        QoS::Level2 => {
            let pid = Pid::from_u16(read_u16(buf, offset)?)?;
            Ok(QosPid::Level2(pid))
        },
    }
}

/// Protocol name and level announced by a connect packet.
#[derive(Debug, Clone, Copy, PartialEq, Eq, Structural, Hash)]
pub enum Protocol {
    /// MQTT 3.1: name `MQIsdp`, level 3.
    V310,
    /// MQTT 3.1.1: name `MQTT`, level 4.
    V311,
    /// MQTT 5.0: name `MQTT`, level 5.
    V50,
}

impl View for Protocol {
    type V = Protocol;

    open spec fn view(&self) -> Protocol {
        *self
    }
}

/// The characters of `MQTT`.
pub open spec fn name_mqtt() -> Seq<char> {
    seq!['M', 'Q', 'T', 'T']
}

/// The characters of `MQIsdp`.
pub open spec fn name_mqisdp() -> Seq<char> {
    seq!['M', 'Q', 'I', 's', 'd', 'p']
}

impl Protocol {
    /// The protocol's name on the wire.
    pub open spec fn spec_name(self) -> Seq<char> {
        match self {
            Protocol::V310 => name_mqisdp(),
            Protocol::V311 => name_mqtt(),
            Protocol::V50 => name_mqtt(),
        }
    }

    /// The protocol's level byte.
    pub open spec fn spec_level(self) -> u8 {
        match self {
            Protocol::V310 => 3,
            Protocol::V311 => 4,
            Protocol::V50 => 5,
        }
    }

    /// The protocol named by the pair of name and level, if any.
    pub open spec fn spec_new(name: Seq<char>, level: u8) -> Result<Protocol, ErrorView> {
        if name == name_mqtt() && level == 4 {
            Ok(Protocol::V311)
        } else if name == name_mqtt() && level == 5 {
            Ok(Protocol::V50)
        } else if name == name_mqisdp() && level == 3 {
            Ok(Protocol::V310)
        } else {
            Err(ErrorView::InvalidProtocol(name, level))
        }
    }

    /// The parser behind [`Protocol::decode`]: a length-prefixed name, then
    /// the level byte.
    pub open spec fn spec_decode(s: Seq<u8>, off: int) -> Result<(Protocol, int), ErrorView> {
        match spec_read_string(s, off) {
            Err(e) => Err(e),
            Ok((name, off1)) => match spec_read_u8(s, off1) {
                Err(e) => Err(e),
                Ok((level, off2)) => match Self::spec_new(name, level) {
                    Err(e) => Err(e),
                    Ok(p) => Ok((p, off2)),
                },
            },
        }
    }

    /// The bytes that [`Protocol::encode`] appends.
    pub open spec fn spec_bytes(self) -> Seq<u8> {
        spec_string_bytes(self.spec_name()).push(self.spec_level())
    }

    /// The protocol's level byte.
    #[verifier::when_used_as_spec(spec_level)]
    pub fn level(self) -> (b: u8)
        ensures
            b == self.spec_level(),
    {
        match self {
            Protocol::V310 => 3,
            Protocol::V311 => 4,
            Protocol::V50 => 5,
        }
    }

    /// The protocol's name on the wire.
    pub fn name(self) -> (s: &'static str)
        ensures
            s@ == self.spec_name(),
    {
        proof {
            reveal_strlit("MQIsdp");
            reveal_strlit("MQTT");
        }
        match self {
            Protocol::V310 => {
                let s = "MQIsdp";
                assert(s@ =~= name_mqisdp());
                s
            },
            Protocol::V311 => {
                let s = "MQTT";
                assert(s@ =~= name_mqtt());
                s
            },
            Protocol::V50 => {
                let s = "MQTT";
                assert(s@ =~= name_mqtt());
                s
            },
        }
    }

    /// The protocol named by `name` and `level`, or `InvalidProtocol` with
    /// both.
    pub fn new(name: String, level: u8) -> (res: Result<Protocol, Error>)
        ensures
            crate::common::error::agrees(res, Self::spec_new(name@, level)),
    {
        proof {
            reveal_strlit("MQIsdp");
            reveal_strlit("MQTT");
            assert("MQTT"@ =~= name_mqtt());
            assert("MQIsdp"@ =~= name_mqisdp());
        }
        let is_mqtt = name == "MQTT".to_owned();
        let is_isdp = name == "MQIsdp".to_owned();
        if is_mqtt && level == 4 {
            Ok(Protocol::V311)
        } else if is_mqtt && level == 5 {
            Ok(Protocol::V50)
        } else if is_isdp && level == 3 {
            Ok(Protocol::V310)
        } else {
            Err(Error::InvalidProtocol(name, level))
        }
    }

    /// Reads a protocol name and level at `offset` of `buf`.
    pub fn decode(buf: &[u8], offset: &mut usize) -> (res: Result<Protocol, Error>)
        ensures
            read_agrees(res, *final(offset), Self::spec_decode(buf@, *old(offset) as int)),
    {
        let name = read_string(buf, offset)?;
        let level = read_u8(buf, offset)?;
        let p = Protocol::new(name, level)?;
        Ok(p)
    }

    /// Appends the protocol's name and level to `out`.
    pub fn encode(self, out: &mut Vec<u8>)
        ensures
            final(out)@ == old(out)@ + self.spec_bytes(),
    {
        proof {
            self.lemma_name_is_short();
        }
        let r = write_string(out, self.name());
        write_u8(out, self.level());
    }

    /// The number of bytes that [`Protocol::encode`] appends.
    pub fn encode_len(self) -> (n: usize)
        ensures
            n == self.spec_bytes().len(),
    {
        proof {
            self.lemma_name_is_short();
        }
        match self {
            Protocol::V310 => 9,
            Protocol::V311 => 7,
            Protocol::V50 => 7,
        }
    }

    /// A protocol name is plain ASCII: one byte for each character.
    pub proof fn lemma_name_is_short(self)
        ensures
            encode_utf8(self.spec_name()).len() == self.spec_name().len(),
            self.spec_name().len() == 4 || self.spec_name().len() == 6,
    {
        assert(is_ascii_chars(self.spec_name()));
        is_ascii_chars_encode_utf8(self.spec_name());
    }
}

} // verus!
