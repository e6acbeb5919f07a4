//! Subscribe, suback and unsubscribe.

use crate::common::error::{agrees, read_agrees, Error, ErrorView};
use crate::common::topic::{spec_topic_filter, TopicFilter};
use crate::common::types::{Pid, QoS};
use crate::common::utils::{
    read_string, read_u16, read_u8, spec_read_string, spec_read_u16, spec_read_u8,
    spec_string_bytes, spec_u16_bytes, write_string, write_u16, write_u8,
};
use crate::v3::header::Header;
use vstd::prelude::*;
use vstd::std_specs::convert::FromSpecImpl;
use vstd::utf8::encode_utf8;

verus! {

/// Body of a subscribe packet.
#[derive(Debug, Clone, PartialEq, Eq, Hash)]
pub struct Subscribe {
    pub pid: Pid,
    pub topics: Vec<(TopicFilter, QoS)>,
}

/// Mathematical model of [`Subscribe`].
pub struct SubscribeView {
    pub pid: u16,
    pub topics: Seq<(Seq<char>, QoS)>,
}

/// The models of the entries of a subscribe packet.
pub open spec fn entries_view(v: Seq<(TopicFilter, QoS)>) -> Seq<(Seq<char>, QoS)> {
    v.map_values(|e: (TopicFilter, QoS)| (e.0@, e.1))
}

/// The models of the filters of an unsubscribe packet.
pub open spec fn filters_view(v: Seq<TopicFilter>) -> Seq<Seq<char>> {
    v.map_values(|e: TopicFilter| e@)
}

impl View for Subscribe {
    type V = SubscribeView;

    open spec fn view(&self) -> SubscribeView {
        SubscribeView { pid: self.pid@, topics: entries_view(self.topics@) }
    }
}

/// The bytes of the entries of a subscribe packet: each filter, then its
/// quality of service.
pub open spec fn spec_entries_bytes(topics: Seq<(Seq<char>, QoS)>) -> Seq<u8>
    decreases topics.len(),
{
    if topics.len() == 0 {
        Seq::empty()
    } else {
        spec_entries_bytes(topics.drop_last()) + spec_string_bytes(topics.last().0).push(
            topics.last().1.spec_to_u8(),
        )
    }
}

/// The entries of a subscribe packet from `off` to the end of `s`, behind
/// those in `acc`. Each entry takes its length off `remaining`.
pub open spec fn spec_read_entries(
    s: Seq<u8>,
    off: int,
    remaining: int,
    acc: Seq<(Seq<char>, QoS)>,
) -> Result<(Seq<(Seq<char>, QoS)>, int), ErrorView>
    decreases s.len() - off,
{
    if off >= s.len() {
        Ok((acc, off))
    } else {
        match spec_read_string(s, off) {
            Err(e) => Err(e),
            Ok((text, off1)) => match spec_topic_filter(text) {
                Err(e) => Err(e),
                Ok(filter) => match spec_read_u8(s, off1) {
                    Err(e) => Err(e),
                    Ok((byte, off2)) => match QoS::spec_from_u8(byte) {
                        Err(e) => Err(e),
                        Ok(qos) => if remaining < 3 + encode_utf8(filter).len() {
                            Err(ErrorView::InvalidRemainingLength)
                        } else {
                            spec_read_entries(
                                s,
                                off2,
                                remaining - 3 - encode_utf8(filter).len(),
                                acc.push((filter, qos)),
                            )
                        },
                    },
                },
            },
        }
    }
}

impl SubscribeView {
    /// The body: packet identifier, then the entries.
    pub open spec fn spec_bytes(self) -> Seq<u8> {
        spec_u16_bytes(self.pid) + spec_entries_bytes(self.topics)
    }

    /// A subscribe packet that can be carried: a nonzero identifier and at
    /// least one entry, each with a filter that obeys the grammar.
    pub open spec fn wf(self) -> bool {
        &&& self.pid != 0
        &&& self.topics.len() > 0
        &&& forall|i: int|
            0 <= i < self.topics.len() ==> spec_topic_filter(#[trigger] self.topics[i].0) is Ok
    }

    /// The parser behind [`Subscribe::decode`]: the whole of `s` from `off`
    /// on is the body, and `remaining_len` is what the header announced.
    pub open spec fn spec_decode(s: Seq<u8>, off: int, remaining_len: int) -> Result<
        (SubscribeView, int),
        ErrorView,
    > {
        match spec_read_u16(s, off) {
            Err(e) => Err(e),
            Ok((raw, off1)) => match Pid::spec_from_u16(raw) {
                Err(e) => Err(e),
                Ok(pid) => if remaining_len < 2 {
                    Err(ErrorView::InvalidRemainingLength)
                } else if off1 >= s.len() {
                    Err(ErrorView::EmptySubscription)
                } else {
                    match spec_read_entries(s, off1, remaining_len - 2, Seq::empty()) {
                        Err(e) => Err(e),
                        Ok((topics, end)) => Ok((SubscribeView { pid, topics }, end)),
                    }
                },
            },
        }
    }
}

impl Subscribe {
    /// A subscribe body from its parts.
    pub fn new(pid: Pid, topics: Vec<(TopicFilter, QoS)>) -> (p: Subscribe)
        ensures
            p.pid == pid,
            p.topics == topics,
    {
        Self { pid, topics }
    }

    /// Reads the body of a subscribe packet: everything from `offset` to the
    /// end of `buf`. `EmptySubscription` where no entry follows the
    /// identifier, `InvalidRemainingLength` where the entries are longer
    /// than the header announced.
    pub fn decode(buf: &[u8], offset: &mut usize, header: Header) -> (res: Result<Subscribe, Error>)
        ensures
            read_agrees(
                res,
                *final(offset),
                SubscribeView::spec_decode(
                    buf@,
                    *old(offset) as int,
                    header.remaining_len as int,
                ),
            ),
    {
        let mut remaining_len: usize = header.remaining_len as usize;
        let pid = Pid::from_u16(read_u16(buf, offset)?)?;
        if remaining_len < 2 {
            return Err(Error::InvalidRemainingLength);
        }
        remaining_len = remaining_len - 2;
        if *offset >= buf.len() {
            return Err(Error::EmptySubscription);
        }
        let ghost start = *offset as int;
        let ghost start_len = remaining_len as int;
        let mut topics: Vec<(TopicFilter, QoS)> = Vec::new();
        assert(entries_view(topics@) =~= Seq::empty());
        while *offset < buf.len()
            invariant
                spec_read_entries(buf@, start, start_len, Seq::empty()) == spec_read_entries(
                    buf@,
                    *offset as int,
                    remaining_len as int,
                    entries_view(topics@),
                ),
                SubscribeView::spec_decode(
                    buf@,
                    *old(offset) as int,
                    header.remaining_len as int,
                ) == (match spec_read_entries(buf@, start, start_len, Seq::empty()) {
                    Err(e) => Err(e),
                    Ok((topics, end)) => Ok((SubscribeView { pid: pid@, topics }, end)),
                }),
            decreases buf@.len() - *offset,
        {
            let text = read_string(buf, offset)?;
            let topic_filter = TopicFilter::from_string(text)?;
            let max_qos = QoS::from_u8(read_u8(buf, offset)?)?;
            let need: usize = 3 + topic_filter.len();
            if remaining_len < need {
                return Err(Error::InvalidRemainingLength);
            }
            remaining_len = remaining_len - need;
            let ghost before = entries_view(topics@);
            topics.push((topic_filter, max_qos));
            assert(entries_view(topics@) =~= before.push((topic_filter@, max_qos)));
        }
        Ok(Subscribe { pid, topics })
    }

    /// Appends the body of the packet.
    pub fn encode(&self, out: &mut Vec<u8>)
        ensures
            final(out)@ == old(out)@ + self@.spec_bytes(),
    {
        write_u16(out, self.pid.value());
        let mut i: usize = 0;
        assert(entries_view(self.topics@).subrange(0, 0) =~= Seq::empty());
        while i < self.topics.len()
            invariant
                i <= self.topics@.len(),
                out@ == old(out)@ + spec_u16_bytes(self.pid@) + spec_entries_bytes(
                    entries_view(self.topics@).subrange(0, i as int),
                ),
            decreases self.topics@.len() - i,
        {
            let entry = &self.topics[i];
            let text = entry.0.as_str();
            proof {
                let all = entries_view(self.topics@);
                assert(all[i as int] == (entry.0@, entry.1));
                let next = all.subrange(0, i + 1);
                assert(next.drop_last() =~= all.subrange(0, i as int));
                assert(next.last() == all[i as int]);
            }
            let r = write_string(out, text);
            write_u8(out, entry.1.to_u8());
            i = i + 1;
            assert(out@ =~= old(out)@ + spec_u16_bytes(self.pid@) + spec_entries_bytes(
                entries_view(self.topics@).subrange(0, i as int),
            ));
        }
        assert(entries_view(self.topics@).subrange(0, i as int) =~= entries_view(self.topics@));
    }

    /// The number of bytes of the packet's body.
    pub fn encode_len(&self) -> (n: usize)
        requires
            self@.spec_bytes().len() <= usize::MAX,
        ensures
            n == self@.spec_bytes().len(),
    {
        let mut n: usize = 2;
        let mut i: usize = 0;
        assert(entries_view(self.topics@).subrange(0, 0) =~= Seq::empty());
        proof {
            lemma_entries_len_monotone(entries_view(self.topics@), 0);
        }
        while i < self.topics.len()
            invariant
                i <= self.topics@.len(),
                self@.spec_bytes().len() <= usize::MAX,
                n == 2 + spec_entries_bytes(entries_view(self.topics@).subrange(0, i as int)).len(),
            decreases self.topics@.len() - i,
        {
            let entry = &self.topics[i];
            proof {
                let all = entries_view(self.topics@);
                assert(all[i as int] == (entry.0@, entry.1));
                let next = all.subrange(0, i + 1);
                assert(next.drop_last() =~= all.subrange(0, i as int));
                assert(next.last() == all[i as int]);
                lemma_entries_len_monotone(all, i + 1);
            }
            n = n + 3 + entry.0.len();
            i = i + 1;
        }
        assert(entries_view(self.topics@).subrange(0, i as int) =~= entries_view(self.topics@));
        n
    }
}

/// The bytes of the first `k` entries are no more than those of all.
pub proof fn lemma_entries_len_monotone(topics: Seq<(Seq<char>, QoS)>, k: int)
    requires
        0 <= k <= topics.len(),
    ensures
        spec_entries_bytes(topics.subrange(0, k)).len() <= spec_entries_bytes(topics).len(),
    decreases topics.len() - k,
{
    if k == topics.len() {
        assert(topics.subrange(0, k) =~= topics);
    } else {
        assert(topics.drop_last().subrange(0, k) =~= topics.subrange(0, k));
        lemma_entries_len_monotone(topics.drop_last(), k);
    }
}

/// Return code of one entry of a suback packet.
#[derive(Debug, Clone, Copy, PartialEq, Eq, Structural, Hash)]
pub enum SubscribeReturnCode {
    MaxLevel0,
    MaxLevel1,
    MaxLevel2,
    Failure,
}

impl View for SubscribeReturnCode {
    type V = SubscribeReturnCode;

    open spec fn view(&self) -> SubscribeReturnCode {
        *self
    }
}

impl SubscribeReturnCode {
    /// What [`SubscribeReturnCode::from_u8`] returns.
    pub open spec fn spec_from_u8(value: u8) -> Result<SubscribeReturnCode, ErrorView> {
        match value {
            128 => Ok(SubscribeReturnCode::Failure),
            0 => Ok(SubscribeReturnCode::MaxLevel0),
            1 => Ok(SubscribeReturnCode::MaxLevel1),
            2 => Ok(SubscribeReturnCode::MaxLevel2),
            _ => Err(ErrorView::InvalidQos(value)),
        }
    }

    /// The code's byte on the wire.
    pub open spec fn spec_to_u8(self) -> u8 {
        match self {
            SubscribeReturnCode::MaxLevel0 => 0,
            SubscribeReturnCode::MaxLevel1 => 1,
            SubscribeReturnCode::MaxLevel2 => 2,
            SubscribeReturnCode::Failure => 128,
        }
    }

    /// What [`SubscribeReturnCode::from_qos`] returns.
    pub open spec fn spec_from_qos(qos: QoS) -> SubscribeReturnCode {
        match qos {
            QoS::Level0 => SubscribeReturnCode::MaxLevel0,
            QoS::Level1 => SubscribeReturnCode::MaxLevel1,
            QoS::Level2 => SubscribeReturnCode::MaxLevel2,
        }
    }

    /// The return code with the given byte, or `InvalidQos` with the byte.
    pub fn from_u8(value: u8) -> (res: Result<SubscribeReturnCode, Error>)
        ensures
            agrees(res, Self::spec_from_u8(value)),
    {
        match value {
            0x80 => Ok(SubscribeReturnCode::Failure),
            0 => Ok(SubscribeReturnCode::MaxLevel0),
            1 => Ok(SubscribeReturnCode::MaxLevel1),
            2 => Ok(SubscribeReturnCode::MaxLevel2),
            _ => Err(Error::InvalidQos(value)),
        }
    }

    /// The code's byte on the wire.
    #[verifier::when_used_as_spec(spec_to_u8)]
    pub fn to_u8(self) -> (b: u8)
        ensures
            b == self.spec_to_u8(),
    {
        match self {
            SubscribeReturnCode::MaxLevel0 => 0,
            SubscribeReturnCode::MaxLevel1 => 1,
            SubscribeReturnCode::MaxLevel2 => 2,
            SubscribeReturnCode::Failure => 0x80,
        }
    }

    /// The code that grants `qos`.
    pub fn from_qos(qos: QoS) -> (c: SubscribeReturnCode)
        ensures
            c == Self::spec_from_qos(qos),
    {
        match qos {
            QoS::Level0 => SubscribeReturnCode::MaxLevel0,
            QoS::Level1 => SubscribeReturnCode::MaxLevel1,
            QoS::Level2 => SubscribeReturnCode::MaxLevel2,
        }
    }
}

impl From<QoS> for SubscribeReturnCode {
    fn from(qos: QoS) -> (c: SubscribeReturnCode) {
        SubscribeReturnCode::from_qos(qos)
    }
}

impl FromSpecImpl<QoS> for SubscribeReturnCode {
    open spec fn obeys_from_spec() -> bool {
        true
    }

    open spec fn from_spec(qos: QoS) -> SubscribeReturnCode {
        SubscribeReturnCode::spec_from_qos(qos)
    }
}

/// Body of a suback packet.
#[derive(Debug, Clone, PartialEq, Eq)]
pub struct Suback {
    pub pid: Pid,
    pub topics: Vec<SubscribeReturnCode>,
}

/// Mathematical model of [`Suback`].
pub struct SubackView {
    pub pid: u16,
    pub topics: Seq<SubscribeReturnCode>,
}

impl View for Suback {
    type V = SubackView;

    open spec fn view(&self) -> SubackView {
        SubackView { pid: self.pid@, topics: self.topics@ }
    }
}

/// `remaining` return codes read at `off`, behind those in `acc`.
pub open spec fn spec_read_codes(
    s: Seq<u8>,
    off: int,
    remaining: int,
    acc: Seq<SubscribeReturnCode>,
) -> Result<(Seq<SubscribeReturnCode>, int), ErrorView>
    decreases remaining,
{
    if remaining <= 0 {
        Ok((acc, off))
    } else {
        match spec_read_u8(s, off) {
            Err(e) => Err(e),
            Ok((byte, off1)) => match SubscribeReturnCode::spec_from_u8(byte) {
                Err(e) => Err(e),
                Ok(code) => spec_read_codes(s, off1, remaining - 1, acc.push(code)),
            },
        }
    }
}

impl SubackView {
    /// The body: packet identifier, then one byte for each return code.
    pub open spec fn spec_bytes(self) -> Seq<u8> {
        spec_u16_bytes(self.pid) + self.topics.map_values(|c: SubscribeReturnCode| c.spec_to_u8())
    }

    /// A suback packet that can be carried: a nonzero identifier.
    pub open spec fn wf(self) -> bool {
        self.pid != 0
    }

    /// The parser behind [`Suback::decode`]: the identifier, then as many
    /// return codes as `remaining_len` leaves room for.
    pub open spec fn spec_decode(s: Seq<u8>, off: int, remaining_len: int) -> Result<
        (SubackView, int),
        ErrorView,
    > {
        match spec_read_u16(s, off) {
            Err(e) => Err(e),
            Ok((raw, off1)) => match Pid::spec_from_u16(raw) {
                Err(e) => Err(e),
                Ok(pid) => if remaining_len < 2 {
                    Err(ErrorView::InvalidRemainingLength)
                } else {
                    match spec_read_codes(s, off1, remaining_len - 2, Seq::empty()) {
                        Err(e) => Err(e),
                        Ok((topics, end)) => Ok((SubackView { pid, topics }, end)),
                    }
                },
            },
        }
    }
}

impl Suback {
    /// A suback body from its parts.
    pub fn new(pid: Pid, topics: Vec<SubscribeReturnCode>) -> (p: Suback)
        ensures
            p.pid == pid,
            p.topics == topics,
    {
        Self { pid, topics }
    }

    /// Reads the body of a suback packet at `offset`, of the length that
    /// `header` announces.
    pub fn decode(buf: &[u8], offset: &mut usize, header: Header) -> (res: Result<Suback, Error>)
        ensures
            read_agrees(
                res,
                *final(offset),
                SubackView::spec_decode(buf@, *old(offset) as int, header.remaining_len as int),
            ),
    {
        let mut remaining_len: usize = header.remaining_len as usize;
        let pid = Pid::from_u16(read_u16(buf, offset)?)?;
        if remaining_len < 2 {
            return Err(Error::InvalidRemainingLength);
        }
        remaining_len = remaining_len - 2;
        let ghost start = *offset as int;
        let ghost start_len = remaining_len as int;
        let mut topics: Vec<SubscribeReturnCode> = Vec::new();
        while remaining_len > 0
            invariant
                spec_read_codes(buf@, start, start_len, Seq::empty()) == spec_read_codes(
                    buf@,
                    *offset as int,
                    remaining_len as int,
                    topics@,
                ),
                SubackView::spec_decode(buf@, *old(offset) as int, header.remaining_len as int)
                    == (match spec_read_codes(buf@, start, start_len, Seq::empty()) {
                    Err(e) => Err(e),
                    Ok((topics, end)) => Ok((SubackView { pid: pid@, topics }, end)),
                }),
            decreases remaining_len,
        {
            let value = read_u8(buf, offset)?;
            let code = SubscribeReturnCode::from_u8(value)?;
            topics.push(code);
            remaining_len = remaining_len - 1;
        }
        Ok(Suback { pid, topics })
    }

    /// Appends the body of the packet.
    pub fn encode(&self, out: &mut Vec<u8>)
        ensures
            final(out)@ == old(out)@ + self@.spec_bytes(),
    {
        write_u16(out, self.pid.value());
        let mut i: usize = 0;
        let ghost codes = self.topics@.map_values(|c: SubscribeReturnCode| c.spec_to_u8());
        while i < self.topics.len()
            invariant
                i <= self.topics@.len(),
                codes == self.topics@.map_values(|c: SubscribeReturnCode| c.spec_to_u8()),
                out@ == old(out)@ + spec_u16_bytes(self.pid@) + codes.subrange(0, i as int),
            decreases self.topics@.len() - i,
        {
            write_u8(out, self.topics[i].to_u8());
            i = i + 1;
            assert(out@ =~= old(out)@ + spec_u16_bytes(self.pid@) + codes.subrange(0, i as int));
        }
        assert(codes.subrange(0, i as int) =~= codes);
    }

    /// The number of bytes of the packet's body.
    pub fn encode_len(&self) -> (n: usize)
        requires
            self@.spec_bytes().len() <= usize::MAX,
        ensures
            n == self@.spec_bytes().len(),
    {
        2 + self.topics.len()
    }
}

/// Body of an unsubscribe packet.
#[derive(Debug, Clone, PartialEq, Eq, Hash)]
pub struct Unsubscribe {
    pub pid: Pid,
    pub topics: Vec<TopicFilter>,
}

/// Mathematical model of [`Unsubscribe`].
pub struct UnsubscribeView {
    pub pid: u16,
    pub topics: Seq<Seq<char>>,
}

impl View for Unsubscribe {
    type V = UnsubscribeView;

    open spec fn view(&self) -> UnsubscribeView {
        UnsubscribeView { pid: self.pid@, topics: filters_view(self.topics@) }
    }
}

/// The bytes of the filters of an unsubscribe packet.
pub open spec fn spec_filters_bytes(topics: Seq<Seq<char>>) -> Seq<u8>
    decreases topics.len(),
{
    if topics.len() == 0 {
        Seq::empty()
    } else {
        spec_filters_bytes(topics.drop_last()) + spec_string_bytes(topics.last())
    }
}

/// Filters read at `off` until `remaining` is used up, behind those in
/// `acc`. A filter longer than what remains is an error.
pub open spec fn spec_read_filters(
    s: Seq<u8>,
    off: int,
    remaining: int,
    acc: Seq<Seq<char>>,
) -> Result<(Seq<Seq<char>>, int), ErrorView>
    decreases remaining,
{
    if remaining <= 0 {
        Ok((acc, off))
    } else {
        match spec_read_string(s, off) {
            Err(e) => Err(e),
            Ok((text, off1)) => match spec_topic_filter(text) {
                Err(e) => Err(e),
                Ok(filter) => if remaining < 2 + encode_utf8(filter).len() {
                    Err(ErrorView::InvalidRemainingLength)
                } else {
                    spec_read_filters(
                        s,
                        off1,
                        remaining - 2 - encode_utf8(filter).len(),
                        acc.push(filter),
                    )
                },
            },
        }
    }
}

impl UnsubscribeView {
    /// The body: packet identifier, then the filters.
    pub open spec fn spec_bytes(self) -> Seq<u8> {
        spec_u16_bytes(self.pid) + spec_filters_bytes(self.topics)
    }

    /// An unsubscribe packet that can be carried: a nonzero identifier and
    /// at least one filter, each obeying the grammar.
    pub open spec fn wf(self) -> bool {
        &&& self.pid != 0
        &&& self.topics.len() > 0
        &&& forall|i: int|
            0 <= i < self.topics.len() ==> spec_topic_filter(#[trigger] self.topics[i]) is Ok
    }

    /// The parser behind [`Unsubscribe::decode`].
    pub open spec fn spec_decode(s: Seq<u8>, off: int, remaining_len: int) -> Result<
        (UnsubscribeView, int),
        ErrorView,
    > {
        match spec_read_u16(s, off) {
            Err(e) => Err(e),
            Ok((raw, off1)) => match Pid::spec_from_u16(raw) {
                Err(e) => Err(e),
                Ok(pid) => if remaining_len < 2 {
                    Err(ErrorView::InvalidRemainingLength)
                } else if remaining_len == 2 {
                    Err(ErrorView::EmptySubscription)
                } else {
                    match spec_read_filters(s, off1, remaining_len - 2, Seq::empty()) {
                        Err(e) => Err(e),
                        Ok((topics, end)) => Ok((UnsubscribeView { pid, topics }, end)),
                    }
                },
            },
        }
    }
}

impl Unsubscribe {
    /// An unsubscribe body from its parts.
    pub fn new(pid: Pid, topics: Vec<TopicFilter>) -> (p: Unsubscribe)
        ensures
            p.pid == pid,
            p.topics == topics,
    {
        Self { pid, topics }
    }

    /// Reads the body of an unsubscribe packet at `offset`, of the length
    /// that `header` announces. `EmptySubscription` where no filter follows
    /// the identifier.
    pub fn decode(buf: &[u8], offset: &mut usize, header: Header) -> (res: Result<
        Unsubscribe,
        Error,
    >)
        ensures
            read_agrees(
                res,
                *final(offset),
                UnsubscribeView::spec_decode(
                    buf@,
                    *old(offset) as int,
                    header.remaining_len as int,
                ),
            ),
    {
        let mut remaining_len: usize = header.remaining_len as usize;
        let pid = Pid::from_u16(read_u16(buf, offset)?)?;
        if remaining_len < 2 {
            return Err(Error::InvalidRemainingLength);
        }
        remaining_len = remaining_len - 2;
        if remaining_len == 0 {
            return Err(Error::EmptySubscription);
        }
        let ghost start = *offset as int;
        let ghost start_len = remaining_len as int;
        let mut topics: Vec<TopicFilter> = Vec::new();
        assert(filters_view(topics@) =~= Seq::empty());
        while remaining_len > 0
            invariant
                spec_read_filters(buf@, start, start_len, Seq::empty()) == spec_read_filters(
                    buf@,
                    *offset as int,
                    remaining_len as int,
                    filters_view(topics@),
                ),
                UnsubscribeView::spec_decode(
                    buf@,
                    *old(offset) as int,
                    header.remaining_len as int,
                ) == (match spec_read_filters(buf@, start, start_len, Seq::empty()) {
                    Err(e) => Err(e),
                    Ok((topics, end)) => Ok((UnsubscribeView { pid: pid@, topics }, end)),
                }),
            decreases remaining_len,
        {
            let text = read_string(buf, offset)?;
            let topic_filter = TopicFilter::from_string(text)?;
            let need: usize = 2 + topic_filter.len();
            if remaining_len < need {
                return Err(Error::InvalidRemainingLength);
            }
            remaining_len = remaining_len - need;
            let ghost before = filters_view(topics@);
            topics.push(topic_filter);
            assert(filters_view(topics@) =~= before.push(topic_filter@));
        }
        Ok(Unsubscribe { pid, topics })
    }

    /// Appends the body of the packet.
    pub fn encode(&self, out: &mut Vec<u8>)
        ensures
            final(out)@ == old(out)@ + self@.spec_bytes(),
    {
        write_u16(out, self.pid.value());
        let mut i: usize = 0;
        assert(filters_view(self.topics@).subrange(0, 0) =~= Seq::empty());
        while i < self.topics.len()
            invariant
                i <= self.topics@.len(),
                out@ == old(out)@ + spec_u16_bytes(self.pid@) + spec_filters_bytes(
                    filters_view(self.topics@).subrange(0, i as int),
                ),
            decreases self.topics@.len() - i,
        {
            let entry = &self.topics[i];
            let text = entry.as_str();
            proof {
                let all = filters_view(self.topics@);
                assert(all[i as int] == entry@);
                let next = all.subrange(0, i + 1);
                assert(next.drop_last() =~= all.subrange(0, i as int));
                assert(next.last() == all[i as int]);
            }
            let r = write_string(out, text);
            i = i + 1;
            assert(out@ =~= old(out)@ + spec_u16_bytes(self.pid@) + spec_filters_bytes(
                filters_view(self.topics@).subrange(0, i as int),
            ));
        }
        assert(filters_view(self.topics@).subrange(0, i as int) =~= filters_view(self.topics@));
    }

    /// The number of bytes of the packet's body.
    pub fn encode_len(&self) -> (n: usize)
        requires
            self@.spec_bytes().len() <= usize::MAX,
        ensures
            n == self@.spec_bytes().len(),
    {
        let mut n: usize = 2;
        let mut i: usize = 0;
        assert(filters_view(self.topics@).subrange(0, 0) =~= Seq::empty());
        proof {
            lemma_filters_len_monotone(filters_view(self.topics@), 0);
        }
        while i < self.topics.len()
            invariant
                i <= self.topics@.len(),
                self@.spec_bytes().len() <= usize::MAX,
                n == 2 + spec_filters_bytes(filters_view(self.topics@).subrange(0, i as int)).len(),
            decreases self.topics@.len() - i,
        {
            let entry = &self.topics[i];
            proof {
                let all = filters_view(self.topics@);
                assert(all[i as int] == entry@);
                let next = all.subrange(0, i + 1);
                assert(next.drop_last() =~= all.subrange(0, i as int));
                assert(next.last() == all[i as int]);
                lemma_filters_len_monotone(all, i + 1);
            }
            n = n + 2 + entry.len();
            i = i + 1;
        }
        assert(filters_view(self.topics@).subrange(0, i as int) =~= filters_view(self.topics@));
        n
    }
}

/// The bytes of the first `k` filters are no more than those of all.
pub proof fn lemma_filters_len_monotone(topics: Seq<Seq<char>>, k: int)
    requires
        0 <= k <= topics.len(),
    ensures
        spec_filters_bytes(topics.subrange(0, k)).len() <= spec_filters_bytes(topics).len(),
    decreases topics.len() - k,
{
    if k == topics.len() {
        assert(topics.subrange(0, k) =~= topics);
    } else {
        assert(topics.drop_last().subrange(0, k) =~= topics.subrange(0, k));
        lemma_filters_len_monotone(topics.drop_last(), k);
    }
}

} // verus!
