//! Subscribe, suback, unsubscribe and unsuback.

use crate::common::error::{Error, ErrorView};
use crate::common::topic::{spec_topic_filter, TopicFilter};
use crate::common::types::{Pid, QoS};
use crate::common::utils::{
    read_string, read_u16, read_u8, spec_read_string, spec_read_u16, spec_read_u8,
    spec_string_bytes, spec_u16_bytes, write_string, write_u16, write_u8,
};
use crate::v5::error::{agrees5, lift, read_agrees5, ErrorV5, ErrorV5View};
use crate::v5::header::PacketType;
use crate::v5::properties::{
    spec_items_fit, spec_properties_bytes, spec_read_properties, Properties, PropertyScope,
    PropertyView,
};
use vstd::prelude::*;

verus! {

/// When a server sends retained messages for a new subscription.
#[derive(Debug, Clone, Copy, PartialEq, Eq, Structural, Hash)]
pub enum RetainHandling {
    SendAtSubscribe,
    SendAtSubscribeIfNotExist,
    DoNotSend,
}

impl RetainHandling {
    /// The value's number on the wire.
    pub open spec fn spec_to_u8(self) -> u8 {
        match self {
            RetainHandling::SendAtSubscribe => 0,
            RetainHandling::SendAtSubscribeIfNotExist => 1,
            RetainHandling::DoNotSend => 2,
        }
    }

    /// The value's number on the wire.
    #[verifier::when_used_as_spec(spec_to_u8)]
    pub fn to_u8(self) -> (b: u8)
        ensures
            b == self.spec_to_u8(),
    {
        match self {
            RetainHandling::SendAtSubscribe => 0,
            RetainHandling::SendAtSubscribeIfNotExist => 1,
            RetainHandling::DoNotSend => 2,
        }
    }
}

/// The options of one entry of a subscribe packet.
#[derive(Debug, Clone, Copy, PartialEq, Eq, Structural, Hash)]
pub struct SubscriptionOptions {
    pub max_qos: QoS,
    pub no_local: bool,
    pub retain_as_published: bool,
    pub retain_handling: RetainHandling,
}

impl View for SubscriptionOptions {
    type V = SubscriptionOptions;

    open spec fn view(&self) -> SubscriptionOptions {
        *self
    }
}

impl SubscriptionOptions {
    /// The options that the byte stands for: two reserved bits that must be
    /// zero, two bits of retain handling that must not be 3, retain as
    /// published, no local, and two bits of quality of service.
    pub open spec fn spec_from_u8(byte: u8) -> Result<SubscriptionOptions, ErrorV5View> {
        if byte / 64 != 0 || (byte / 16) % 4 == 3 {
            Err(ErrorV5View::InvalidSubscriptionOptions(byte))
        } else {
            match QoS::spec_from_u8(byte % 4) {
                Err(e) => Err(ErrorV5View::Common(e)),
                Ok(max_qos) => Ok(
                    SubscriptionOptions {
                        max_qos,
                        no_local: (byte / 4) % 2 == 1,
                        retain_as_published: (byte / 8) % 2 == 1,
                        retain_handling: if (byte / 16) % 4 == 0 {
                            RetainHandling::SendAtSubscribe
                        } else if (byte / 16) % 4 == 1 {
                            RetainHandling::SendAtSubscribeIfNotExist
                        } else {
                            RetainHandling::DoNotSend
                        },
                    },
                ),
            }
        }
    }

    /// The byte of the options.
    pub open spec fn spec_to_u8(self) -> u8 {
        (self.max_qos.spec_to_u8() + (if self.no_local {
            4int
        } else {
            0int
        }) + (if self.retain_as_published {
            8int
        } else {
            0int
        }) + self.retain_handling.spec_to_u8() * 16) as u8
    }

    /// Options with the given quality of service and nothing else set.
    pub fn new(max_qos: QoS) -> (o: SubscriptionOptions)
        ensures
            o == (SubscriptionOptions {
                max_qos,
                no_local: false,
                retain_as_published: false,
                retain_handling: RetainHandling::SendAtSubscribe,
            }),
    {
        SubscriptionOptions {
            max_qos,
            no_local: false,
            retain_as_published: false,
            retain_handling: RetainHandling::SendAtSubscribe,
        }
    }

    /// The options that the byte stands for: `InvalidSubscriptionOptions`
    /// with the byte where a reserved bit is set or retain handling is 3,
    /// `InvalidQos(3)` where both bits of the quality of service are set.
    pub fn from_u8(byte: u8) -> (res: Result<SubscriptionOptions, ErrorV5>)
        ensures
            agrees5(res, Self::spec_from_u8(byte)),
    {
        let handling: u8 = (byte / 16) % 4;
        if byte / 64 != 0 || handling == 3 {
            return Err(ErrorV5::InvalidSubscriptionOptions(byte));
        }
        let max_qos = lift(QoS::from_u8(byte % 4))?;
        let retain_handling = if handling == 0 {
            RetainHandling::SendAtSubscribe
        } else if handling == 1 {
            RetainHandling::SendAtSubscribeIfNotExist
        } else {
            RetainHandling::DoNotSend
        };
        Ok(
            SubscriptionOptions {
                max_qos,
                no_local: (byte / 4) % 2 == 1,
                retain_as_published: (byte / 8) % 2 == 1,
                retain_handling,
            },
        )
    }

    /// The byte of the options.
    #[verifier::when_used_as_spec(spec_to_u8)]
    pub fn to_u8(self) -> (b: u8)
        ensures
            b == self.spec_to_u8(),
    {
        let n: u8 = if self.no_local {
            4
        } else {
            0
        };
        let r: u8 = if self.retain_as_published {
            8
        } else {
            0
        };
        self.max_qos.to_u8() + n + r + self.retain_handling.to_u8() * 16
    }
}

/// The options read back from their byte are the options.
pub proof fn lemma_options_round_trip(o: SubscriptionOptions)
    ensures
        SubscriptionOptions::spec_from_u8(o.spec_to_u8()) == Ok::<
            SubscriptionOptions,
            ErrorV5View,
        >(o),
{
}

/// Body of a subscribe packet.
#[derive(Debug, Clone, PartialEq, Eq)]
pub struct Subscribe {
    pub pid: Pid,
    pub properties: Properties,
    pub topics: Vec<(TopicFilter, SubscriptionOptions)>,
}

/// Mathematical model of [`Subscribe`].
pub struct SubscribeView {
    pub pid: u16,
    pub properties: Seq<PropertyView>,
    pub topics: Seq<(Seq<char>, SubscriptionOptions)>,
}

/// The models of the entries of a subscribe packet.
pub open spec fn entries_view(v: Seq<(TopicFilter, SubscriptionOptions)>) -> Seq<
    (Seq<char>, SubscriptionOptions),
> {
    v.map_values(|e: (TopicFilter, SubscriptionOptions)| (e.0@, e.1))
}

/// The models of the filters of an unsubscribe packet.
pub open spec fn filters_view(v: Seq<TopicFilter>) -> Seq<Seq<char>> {
    v.map_values(|e: TopicFilter| e@)
}

impl View for Subscribe {
    type V = SubscribeView;

    open spec fn view(&self) -> SubscribeView {
        SubscribeView {
            pid: self.pid@,
            properties: self.properties@,
            topics: entries_view(self.topics@),
        }
    }
}

/// The bytes of the entries of a subscribe packet: each filter, then its
/// options.
pub open spec fn spec_entries_bytes(topics: Seq<(Seq<char>, SubscriptionOptions)>) -> Seq<u8>
    decreases topics.len(),
{
    if topics.len() == 0 {
        Seq::empty()
    } else {
        spec_entries_bytes(topics.drop_last()) + spec_string_bytes(topics.last().0).push(
            topics.last().1.spec_to_u8(),
        )
    }
}

/// The entries of a subscribe packet from `off` to the end of `s`, behind
/// those in `acc`.
pub open spec fn spec_read_entries(
    s: Seq<u8>,
    off: int,
    acc: Seq<(Seq<char>, SubscriptionOptions)>,
) -> Result<(Seq<(Seq<char>, SubscriptionOptions)>, int), ErrorV5View>
    decreases s.len() - off,
{
    if off >= s.len() {
        Ok((acc, off))
    } else {
        match spec_read_string(s, off) {
            Err(e) => Err(ErrorV5View::Common(e)),
            Ok((text, off1)) => match spec_topic_filter(text) {
                Err(e) => Err(ErrorV5View::Common(e)),
                Ok(filter) => match spec_read_u8(s, off1) {
                    Err(e) => Err(ErrorV5View::Common(e)),
                    Ok((byte, off2)) => match SubscriptionOptions::spec_from_u8(byte) {
                        Err(e) => Err(e),
                        Ok(options) => spec_read_entries(s, off2, acc.push((filter, options))),
                    },
                },
            },
        }
    }
}

/// A packet identifier and a block of properties at `off`: how subscribe,
/// suback, unsubscribe and unsuback begin.
pub open spec fn spec_read_pid_properties(s: Seq<u8>, off: int, scope: PropertyScope) -> Result<
    ((u16, Seq<PropertyView>), int),
    ErrorV5View,
> {
    match spec_read_u16(s, off) {
        Err(e) => Err(ErrorV5View::Common(e)),
        Ok((raw, off1)) => match Pid::spec_from_u16(raw) {
            Err(e) => Err(ErrorV5View::Common(e)),
            Ok(pid) => match spec_read_properties(s, off1, scope) {
                Err(e) => Err(e),
                Ok((properties, off2)) => Ok(((pid, properties), off2)),
            },
        },
    }
}

/// Reads a packet identifier and a block of properties.
fn read_pid_properties(buf: &[u8], offset: &mut usize, scope: PropertyScope) -> (res: Result<
    (Pid, Properties),
    ErrorV5,
>)
    ensures
        match spec_read_pid_properties(buf@, *old(offset) as int, scope) {
            Ok((v, end)) => res is Ok && *final(offset) == end && res->Ok_0.0@ == v.0
                && res->Ok_0.1@ == v.1,
            Err(e) => res is Err && res->Err_0@ == e,
        },
{
    let pid = lift(Pid::from_u16(lift(read_u16(buf, offset))?))?;
    let properties = Properties::decode(buf, offset, scope)?;
    Ok((pid, properties))
}

impl SubscribeView {
    /// The body: packet identifier, properties, then the entries.
    pub open spec fn spec_bytes(self) -> Seq<u8> {
        spec_u16_bytes(self.pid) + spec_properties_bytes(self.properties) + spec_entries_bytes(
            self.topics,
        )
    }

    /// The properties have an encoding.
    pub open spec fn fits(self) -> bool {
        spec_items_fit(self.properties)
    }

    /// The parser behind [`Subscribe::decode`]: the whole of `s` from `off`
    /// on is the body.
    pub open spec fn spec_decode(s: Seq<u8>, off: int) -> Result<
        (SubscribeView, int),
        ErrorV5View,
    > {
        match spec_read_pid_properties(s, off, PropertyScope::Subscribe) {
            Err(e) => Err(e),
            Ok(((pid, properties), off1)) => if off1 >= s.len() {
                Err(ErrorV5View::Common(ErrorView::EmptySubscription))
            } else {
                match spec_read_entries(s, off1, Seq::empty()) {
                    Err(e) => Err(e),
                    Ok((topics, end)) => Ok((SubscribeView { pid, properties, topics }, end)),
                }
            },
        }
    }
}

impl Subscribe {
    /// A subscribe body without properties.
    pub fn new(pid: Pid, topics: Vec<(TopicFilter, SubscriptionOptions)>) -> (p: Subscribe)
        ensures
            p.pid == pid,
            p.topics == topics,
            p.properties@ == Seq::<PropertyView>::empty(),
    {
        Subscribe { pid, properties: Properties::new(), topics }
    }

    /// Reads the body of a subscribe packet: everything from `offset` to the
    /// end of `buf`. `EmptySubscription` where no entry follows the
    /// properties.
    pub fn decode(buf: &[u8], offset: &mut usize) -> (res: Result<Subscribe, ErrorV5>)
        ensures
            read_agrees5(
                res,
                *final(offset),
                SubscribeView::spec_decode(buf@, *old(offset) as int),
            ),
    {
        let (pid, properties) = read_pid_properties(buf, offset, PropertyScope::Subscribe)?;
        if *offset >= buf.len() {
            return Err(ErrorV5::Common(Error::EmptySubscription));
        }
        let ghost start = *offset as int;
        let mut topics: Vec<(TopicFilter, SubscriptionOptions)> = Vec::new();
        assert(entries_view(topics@) =~= Seq::empty());
        while *offset < buf.len()
            invariant
                spec_read_entries(buf@, start, Seq::empty()) == spec_read_entries(
                    buf@,
                    *offset as int,
                    entries_view(topics@),
                ),
                SubscribeView::spec_decode(buf@, *old(offset) as int) == (match spec_read_entries(
                    buf@,
                    start,
                    Seq::empty(),
                ) {
                    Err(e) => Err(e),
                    Ok((topics, end)) => Ok(
                        (SubscribeView { pid: pid@, properties: properties@, topics }, end),
                    ),
                }),
            decreases buf@.len() - *offset,
        {
            let text = lift(read_string(buf, offset))?;
            let topic_filter = lift(TopicFilter::from_string(text))?;
            let options = SubscriptionOptions::from_u8(lift(read_u8(buf, offset))?)?;
            let ghost before = entries_view(topics@);
            topics.push((topic_filter, options));
            assert(entries_view(topics@) =~= before.push((topic_filter@, options)));
        }
        Ok(Subscribe { pid, properties, topics })
    }

    /// Appends the body of the packet, or fails with `PayloadTooLong`,
    /// leaving `out` as it was, where the properties have no encoding.
    pub fn encode(&self, out: &mut Vec<u8>) -> (res: Result<(), ErrorV5>)
        ensures
            match res {
                Ok(_) => self@.fits() && final(out)@ == old(out)@ + self@.spec_bytes(),
                Err(e) => e == ErrorV5::Common(Error::PayloadTooLong) && !self@.fits() && final(out)@
                    == old(out)@,
            },
    {
        if self.properties.checked_len().is_none() {
            return Err(ErrorV5::Common(Error::PayloadTooLong));
        }
        write_u16(out, self.pid.value());
        let r = self.properties.encode(out);
        let ghost head = out@;
        let mut i: usize = 0;
        assert(entries_view(self.topics@).subrange(0, 0) =~= Seq::empty());
        assert(out@ =~= head + spec_entries_bytes(entries_view(self.topics@).subrange(0, 0)));
        while i < self.topics.len()
            invariant
                i <= self.topics@.len(),
                out@ == head + spec_entries_bytes(entries_view(self.topics@).subrange(0, i as int)),
            decreases self.topics@.len() - i,
        {
            let entry = &self.topics[i];
            let text = entry.0.as_str();
            proof {
                let all = entries_view(self.topics@);
                assert(all[i as int] == (entry.0@, entry.1));
                let next = all.subrange(0, i + 1);
                assert(next.drop_last() =~= all.subrange(0, i as int));
                assert(next.last() == all[i as int]);
            }
            let r = write_string(out, text);
            write_u8(out, entry.1.to_u8());
            i = i + 1;
            assert(out@ =~= head + spec_entries_bytes(
                entries_view(self.topics@).subrange(0, i as int),
            ));
        }
        assert(entries_view(self.topics@).subrange(0, i as int) =~= entries_view(self.topics@));
        assert(out@ =~= old(out)@ + self@.spec_bytes());
        Ok(())
    }

    /// The number of bytes of the packet's body, if the properties have an
    /// encoding.
    pub fn encode_len(&self) -> (res: Result<usize, ErrorV5>)
        ensures
            match res {
                Ok(n) => self@.fits() && n == self@.spec_bytes().len(),
                Err(e) => e == ErrorV5::Common(Error::PayloadTooLong) && !self@.fits(),
            },
    {
        let mut scratch: Vec<u8> = Vec::new();
        self.encode(&mut scratch)?;
        assert(scratch@ =~= self@.spec_bytes());
        Ok(scratch.len())
    }
}

/// Body of an unsubscribe packet.
#[derive(Debug, Clone, PartialEq, Eq)]
pub struct Unsubscribe {
    pub pid: Pid,
    pub properties: Properties,
    pub topics: Vec<TopicFilter>,
}

/// Mathematical model of [`Unsubscribe`].
pub struct UnsubscribeView {
    pub pid: u16,
    pub properties: Seq<PropertyView>,
    pub topics: Seq<Seq<char>>,
}

impl View for Unsubscribe {
    type V = UnsubscribeView;

    open spec fn view(&self) -> UnsubscribeView {
        UnsubscribeView {
            pid: self.pid@,
            properties: self.properties@,
            topics: filters_view(self.topics@),
        }
    }
}

/// The bytes of the filters of an unsubscribe packet.
pub open spec fn spec_filters_bytes(topics: Seq<Seq<char>>) -> Seq<u8>
    decreases topics.len(),
{
    if topics.len() == 0 {
        Seq::empty()
    } else {
        spec_filters_bytes(topics.drop_last()) + spec_string_bytes(topics.last())
    }
}

/// The filters from `off` to the end of `s`, behind those in `acc`.
pub open spec fn spec_read_filters(s: Seq<u8>, off: int, acc: Seq<Seq<char>>) -> Result<
    (Seq<Seq<char>>, int),
    ErrorV5View,
>
    decreases s.len() - off,
{
    if off >= s.len() {
        Ok((acc, off))
    } else {
        match spec_read_string(s, off) {
            Err(e) => Err(ErrorV5View::Common(e)),
            Ok((text, off1)) => match spec_topic_filter(text) {
                Err(e) => Err(ErrorV5View::Common(e)),
                Ok(filter) => spec_read_filters(s, off1, acc.push(filter)),
            },
        }
    }
}

impl UnsubscribeView {
    /// The body: packet identifier, properties, then the filters.
    pub open spec fn spec_bytes(self) -> Seq<u8> {
        spec_u16_bytes(self.pid) + spec_properties_bytes(self.properties) + spec_filters_bytes(
            self.topics,
        )
    }

    /// The properties have an encoding.
    pub open spec fn fits(self) -> bool {
        spec_items_fit(self.properties)
    }

    /// The parser behind [`Unsubscribe::decode`]: the whole of `s` from
    /// `off` on is the body.
    pub open spec fn spec_decode(s: Seq<u8>, off: int) -> Result<
        (UnsubscribeView, int),
        ErrorV5View,
    > {
        match spec_read_pid_properties(s, off, PropertyScope::Unsubscribe) {
            Err(e) => Err(e),
            Ok(((pid, properties), off1)) => if off1 >= s.len() {
                Err(ErrorV5View::Common(ErrorView::EmptySubscription))
            } else {
                match spec_read_filters(s, off1, Seq::empty()) {
                    Err(e) => Err(e),
                    Ok((topics, end)) => Ok((UnsubscribeView { pid, properties, topics }, end)),
                }
            },
        }
    }
}

impl Unsubscribe {
    /// An unsubscribe body without properties.
    pub fn new(pid: Pid, topics: Vec<TopicFilter>) -> (p: Unsubscribe)
        ensures
            p.pid == pid,
            p.topics == topics,
            p.properties@ == Seq::<PropertyView>::empty(),
    {
        Unsubscribe { pid, properties: Properties::new(), topics }
    }

    /// Reads the body of an unsubscribe packet: everything from `offset` to
    /// the end of `buf`. `EmptySubscription` where no filter follows the
    /// properties.
    pub fn decode(buf: &[u8], offset: &mut usize) -> (res: Result<Unsubscribe, ErrorV5>)
        ensures
            read_agrees5(
                res,
                *final(offset),
                UnsubscribeView::spec_decode(buf@, *old(offset) as int),
            ),
    {
        let (pid, properties) = read_pid_properties(buf, offset, PropertyScope::Unsubscribe)?;
        if *offset >= buf.len() {
            return Err(ErrorV5::Common(Error::EmptySubscription));
        }
        let ghost start = *offset as int;
        let mut topics: Vec<TopicFilter> = Vec::new();
        assert(filters_view(topics@) =~= Seq::empty());
        while *offset < buf.len()
            invariant
                spec_read_filters(buf@, start, Seq::empty()) == spec_read_filters(
                    buf@,
                    *offset as int,
                    filters_view(topics@),
                ),
                UnsubscribeView::spec_decode(buf@, *old(offset) as int) == (
                match spec_read_filters(buf@, start, Seq::empty()) {
                    Err(e) => Err(e),
                    Ok((topics, end)) => Ok(
                        (UnsubscribeView { pid: pid@, properties: properties@, topics }, end),
                    ),
                }),
            decreases buf@.len() - *offset,
        {
            let text = lift(read_string(buf, offset))?;
            let topic_filter = lift(TopicFilter::from_string(text))?;
            let ghost before = filters_view(topics@);
            topics.push(topic_filter);
            assert(filters_view(topics@) =~= before.push(topic_filter@));
        }
        Ok(Unsubscribe { pid, properties, topics })
    }

    /// Appends the body of the packet, or fails with `PayloadTooLong`,
    /// leaving `out` as it was, where the properties have no encoding.
    pub fn encode(&self, out: &mut Vec<u8>) -> (res: Result<(), ErrorV5>)
        ensures
            match res {
                Ok(_) => self@.fits() && final(out)@ == old(out)@ + self@.spec_bytes(),
                Err(e) => e == ErrorV5::Common(Error::PayloadTooLong) && !self@.fits() && final(out)@
                    == old(out)@,
            },
    {
        if self.properties.checked_len().is_none() {
            return Err(ErrorV5::Common(Error::PayloadTooLong));
        }
        write_u16(out, self.pid.value());
        let r = self.properties.encode(out);
        let ghost head = out@;
        let mut i: usize = 0;
        assert(filters_view(self.topics@).subrange(0, 0) =~= Seq::empty());
        assert(out@ =~= head + spec_filters_bytes(filters_view(self.topics@).subrange(0, 0)));
        while i < self.topics.len()
            invariant
                i <= self.topics@.len(),
                out@ == head + spec_filters_bytes(filters_view(self.topics@).subrange(0, i as int)),
            decreases self.topics@.len() - i,
        {
            let entry = &self.topics[i];
            let text = entry.as_str();
            proof {
                let all = filters_view(self.topics@);
                assert(all[i as int] == entry@);
                let next = all.subrange(0, i + 1);
                assert(next.drop_last() =~= all.subrange(0, i as int));
                assert(next.last() == all[i as int]);
            }
            let r = write_string(out, text);
            i = i + 1;
            assert(out@ =~= head + spec_filters_bytes(
                filters_view(self.topics@).subrange(0, i as int),
            ));
        }
        assert(filters_view(self.topics@).subrange(0, i as int) =~= filters_view(self.topics@));
        assert(out@ =~= old(out)@ + self@.spec_bytes());
        Ok(())
    }

    /// The number of bytes of the packet's body, if the properties have an
    /// encoding.
    pub fn encode_len(&self) -> (res: Result<usize, ErrorV5>)
        ensures
            match res {
                Ok(n) => self@.fits() && n == self@.spec_bytes().len(),
                Err(e) => e == ErrorV5::Common(Error::PayloadTooLong) && !self@.fits(),
            },
    {
        let mut scratch: Vec<u8> = Vec::new();
        self.encode(&mut scratch)?;
        assert(scratch@ =~= self@.spec_bytes());
        Ok(scratch.len())
    }
}

/// Body of a suback packet.
#[derive(Debug, Clone, PartialEq, Eq)]
pub struct Suback {
    pub pid: Pid,
    pub properties: Properties,
    pub topics: Vec<SubscribeReasonCode>,
}

/// Mathematical model of [`Suback`].
pub struct SubackView {
    pub pid: u16,
    pub properties: Seq<PropertyView>,
    pub topics: Seq<SubscribeReasonCode>,
}

impl View for Suback {
    type V = SubackView;

    open spec fn view(&self) -> SubackView {
        SubackView { pid: self.pid@, properties: self.properties@, topics: self.topics@ }
    }
}

/// The reason codes of a suback packet from `off` to the end of `s`,
/// behind those in `acc`.
pub open spec fn spec_read_suback_codes(s: Seq<u8>, off: int, acc: Seq<SubscribeReasonCode>) -> Result<
    (Seq<SubscribeReasonCode>, int),
    ErrorV5View,
>
    decreases s.len() - off,
{
    if off < 0 || off >= s.len() {
        Ok((acc, off))
    } else {
        match SubscribeReasonCode::spec_from_u8(s[off]) {
            None => Err(ErrorV5View::InvalidReasonCode(PacketType::Suback, s[off])),
            Some(code) => spec_read_suback_codes(s, off + 1, acc.push(code)),
        }
    }
}

impl SubackView {
    /// The body: packet identifier, properties, then one byte for each
    /// reason code.
    pub open spec fn spec_bytes(self) -> Seq<u8> {
        spec_u16_bytes(self.pid) + spec_properties_bytes(self.properties) + self.topics.map_values(
            |c: SubscribeReasonCode| c.spec_to_u8(),
        )
    }

    /// The properties have an encoding.
    pub open spec fn fits(self) -> bool {
        spec_items_fit(self.properties)
    }

    /// The parser behind [`Suback::decode`]: the whole of `s` from `off` on is
    /// the body.
    pub open spec fn spec_decode(s: Seq<u8>, off: int) -> Result<(SubackView, int), ErrorV5View> {
        match spec_read_pid_properties(s, off, PropertyScope::Suback) {
            Err(e) => Err(e),
            Ok(((pid, properties), off1)) => match spec_read_suback_codes(s, off1, Seq::empty()) {
                Err(e) => Err(e),
                Ok((topics, end)) => Ok((SubackView { pid, properties, topics }, end)),
            },
        }
    }
}

impl Suback {
    /// A suback body without properties.
    pub fn new(pid: Pid, topics: Vec<SubscribeReasonCode>) -> (p: Suback)
        ensures
            p.pid == pid,
            p.topics == topics,
            p.properties@ == Seq::<PropertyView>::empty(),
    {
        Suback { pid, properties: Properties::new(), topics }
    }

    /// Reads the body of a suback packet: everything from `offset` to
    /// the end of `buf`. `InvalidReasonCode` for a byte outside the set of
    /// [`SubscribeReasonCode`].
    pub fn decode(buf: &[u8], offset: &mut usize) -> (res: Result<Suback, ErrorV5>)
        ensures
            read_agrees5(res, *final(offset), SubackView::spec_decode(buf@, *old(offset) as int)),
    {
        let (pid, properties) = read_pid_properties(buf, offset, PropertyScope::Suback)?;
        let ghost start = *offset as int;
        let mut topics: Vec<SubscribeReasonCode> = Vec::new();
        while *offset < buf.len()
            invariant
                spec_read_suback_codes(buf@, start, Seq::empty()) == spec_read_suback_codes(
                    buf@,
                    *offset as int,
                    topics@,
                ),
                SubackView::spec_decode(buf@, *old(offset) as int) == (match spec_read_suback_codes(
                    buf@,
                    start,
                    Seq::empty(),
                ) {
                    Err(e) => Err(e),
                    Ok((topics, end)) => Ok(
                        (SubackView { pid: pid@, properties: properties@, topics }, end),
                    ),
                }),
            decreases buf@.len() - *offset,
        {
            let byte: u8 = buf[*offset];
            let code = match SubscribeReasonCode::from_u8(byte) {
                Some(c) => c,
                None => {
                    return Err(ErrorV5::InvalidReasonCode(PacketType::Suback, byte));
                },
            };
            topics.push(code);
            *offset = *offset + 1;
        }
        Ok(Suback { pid, properties, topics })
    }

    /// Appends the body of the packet, or fails with `PayloadTooLong`,
    /// leaving `out` as it was, where the properties have no encoding.
    pub fn encode(&self, out: &mut Vec<u8>) -> (res: Result<(), ErrorV5>)
        ensures
            match res {
                Ok(_) => self@.fits() && final(out)@ == old(out)@ + self@.spec_bytes(),
                Err(e) => e == ErrorV5::Common(Error::PayloadTooLong) && !self@.fits() && final(out)@
                    == old(out)@,
            },
    {
        if self.properties.checked_len().is_none() {
            return Err(ErrorV5::Common(Error::PayloadTooLong));
        }
        write_u16(out, self.pid.value());
        let r = self.properties.encode(out);
        let ghost head = out@;
        let ghost codes = self.topics@.map_values(|c: SubscribeReasonCode| c.spec_to_u8());
        let mut i: usize = 0;
        assert(out@ =~= head + codes.subrange(0, 0));
        while i < self.topics.len()
            invariant
                i <= self.topics@.len(),
                codes == self.topics@.map_values(|c: SubscribeReasonCode| c.spec_to_u8()),
                out@ == head + codes.subrange(0, i as int),
            decreases self.topics@.len() - i,
        {
            write_u8(out, self.topics[i].to_u8());
            i = i + 1;
            assert(out@ =~= head + codes.subrange(0, i as int));
        }
        assert(codes.subrange(0, i as int) =~= codes);
        assert(out@ =~= old(out)@ + self@.spec_bytes());
        Ok(())
    }

    /// The number of bytes of the packet's body, if the properties have an
    /// encoding.
    pub fn encode_len(&self) -> (res: Result<usize, ErrorV5>)
        ensures
            match res {
                Ok(n) => self@.fits() && n == self@.spec_bytes().len(),
                Err(e) => e == ErrorV5::Common(Error::PayloadTooLong) && !self@.fits(),
            },
    {
        let mut scratch: Vec<u8> = Vec::new();
        self.encode(&mut scratch)?;
        assert(scratch@ =~= self@.spec_bytes());
        Ok(scratch.len())
    }
}

/// Reason code of one entry of a suback packet.
#[derive(Debug, Clone, Copy, PartialEq, Eq, Structural, Hash)]
pub enum SubscribeReasonCode {
    GrantedQoS0,
    GrantedQoS1,
    GrantedQoS2,
    UnspecifiedError,
    ImplementationSpecificError,
    NotAuthorized,
    TopicFilterInvalid,
    PacketIdentifierInUse,
    QuotaExceeded,
    SharedSubscriptionNotSupported,
    SubscriptionIdentifiersNotSupported,
    WildcardSubscriptionsNotSupported,
}

impl View for SubscribeReasonCode {
    type V = SubscribeReasonCode;

    open spec fn view(&self) -> SubscribeReasonCode {
        *self
    }
}

impl SubscribeReasonCode {
    /// The code with the given byte, if the byte is one of this set.
    pub open spec fn spec_from_u8(value: u8) -> Option<SubscribeReasonCode> {
        match value {
            0x00 => Some(SubscribeReasonCode::GrantedQoS0),
            0x01 => Some(SubscribeReasonCode::GrantedQoS1),
            0x02 => Some(SubscribeReasonCode::GrantedQoS2),
            0x80 => Some(SubscribeReasonCode::UnspecifiedError),
            0x83 => Some(SubscribeReasonCode::ImplementationSpecificError),
            0x87 => Some(SubscribeReasonCode::NotAuthorized),
            0x8F => Some(SubscribeReasonCode::TopicFilterInvalid),
            0x91 => Some(SubscribeReasonCode::PacketIdentifierInUse),
            0x97 => Some(SubscribeReasonCode::QuotaExceeded),
            0x9E => Some(SubscribeReasonCode::SharedSubscriptionNotSupported),
            0xA1 => Some(SubscribeReasonCode::SubscriptionIdentifiersNotSupported),
            0xA2 => Some(SubscribeReasonCode::WildcardSubscriptionsNotSupported),
            _ => None,
        }
    }

    /// The code's byte on the wire.
    pub open spec fn spec_to_u8(self) -> u8 {
        match self {
            SubscribeReasonCode::GrantedQoS0 => 0x00,
            SubscribeReasonCode::GrantedQoS1 => 0x01,
            SubscribeReasonCode::GrantedQoS2 => 0x02,
            SubscribeReasonCode::UnspecifiedError => 0x80,
            SubscribeReasonCode::ImplementationSpecificError => 0x83,
            SubscribeReasonCode::NotAuthorized => 0x87,
            SubscribeReasonCode::TopicFilterInvalid => 0x8F,
            SubscribeReasonCode::PacketIdentifierInUse => 0x91,
            SubscribeReasonCode::QuotaExceeded => 0x97,
            SubscribeReasonCode::SharedSubscriptionNotSupported => 0x9E,
            SubscribeReasonCode::SubscriptionIdentifiersNotSupported => 0xA1,
            SubscribeReasonCode::WildcardSubscriptionsNotSupported => 0xA2,
        }
    }

    /// The code with the given byte, if the byte is one of this set.
    pub fn from_u8(value: u8) -> (res: Option<SubscribeReasonCode>)
        ensures
            res == Self::spec_from_u8(value),
            res matches Some(c) ==> c.spec_to_u8() == value,
    {
        match value {
            0x00 => Some(SubscribeReasonCode::GrantedQoS0),
            0x01 => Some(SubscribeReasonCode::GrantedQoS1),
            0x02 => Some(SubscribeReasonCode::GrantedQoS2),
            0x80 => Some(SubscribeReasonCode::UnspecifiedError),
            0x83 => Some(SubscribeReasonCode::ImplementationSpecificError),
            0x87 => Some(SubscribeReasonCode::NotAuthorized),
            0x8F => Some(SubscribeReasonCode::TopicFilterInvalid),
            0x91 => Some(SubscribeReasonCode::PacketIdentifierInUse),
            0x97 => Some(SubscribeReasonCode::QuotaExceeded),
            0x9E => Some(SubscribeReasonCode::SharedSubscriptionNotSupported),
            0xA1 => Some(SubscribeReasonCode::SubscriptionIdentifiersNotSupported),
            0xA2 => Some(SubscribeReasonCode::WildcardSubscriptionsNotSupported),
            _ => None,
        }
    }

    /// The code's byte on the wire.
    #[verifier::when_used_as_spec(spec_to_u8)]
    pub fn to_u8(self) -> (b: u8)
        ensures
            b == self.spec_to_u8(),
            Self::spec_from_u8(b) == Some(self),
    {
        match self {
            SubscribeReasonCode::GrantedQoS0 => 0x00,
            SubscribeReasonCode::GrantedQoS1 => 0x01,
            SubscribeReasonCode::GrantedQoS2 => 0x02,
            SubscribeReasonCode::UnspecifiedError => 0x80,
            SubscribeReasonCode::ImplementationSpecificError => 0x83,
            SubscribeReasonCode::NotAuthorized => 0x87,
            SubscribeReasonCode::TopicFilterInvalid => 0x8F,
            SubscribeReasonCode::PacketIdentifierInUse => 0x91,
            SubscribeReasonCode::QuotaExceeded => 0x97,
            SubscribeReasonCode::SharedSubscriptionNotSupported => 0x9E,
            SubscribeReasonCode::SubscriptionIdentifiersNotSupported => 0xA1,
            SubscribeReasonCode::WildcardSubscriptionsNotSupported => 0xA2,
        }
    }
}

/// Body of an unsuback packet.
#[derive(Debug, Clone, PartialEq, Eq)]
pub struct Unsuback {
    pub pid: Pid,
    pub properties: Properties,
    pub topics: Vec<UnsubscribeReasonCode>,
}

/// Mathematical model of [`Unsuback`].
pub struct UnsubackView {
    pub pid: u16,
    pub properties: Seq<PropertyView>,
    pub topics: Seq<UnsubscribeReasonCode>,
}

impl View for Unsuback {
    type V = UnsubackView;

    open spec fn view(&self) -> UnsubackView {
        UnsubackView { pid: self.pid@, properties: self.properties@, topics: self.topics@ }
    }
}

/// The reason codes of an unsuback packet from `off` to the end of `s`,
/// behind those in `acc`.
pub open spec fn spec_read_unsuback_codes(s: Seq<u8>, off: int, acc: Seq<UnsubscribeReasonCode>) -> Result<
    (Seq<UnsubscribeReasonCode>, int),
    ErrorV5View,
>
    decreases s.len() - off,
{
    if off < 0 || off >= s.len() {
        Ok((acc, off))
    } else {
        match UnsubscribeReasonCode::spec_from_u8(s[off]) {
            None => Err(ErrorV5View::InvalidReasonCode(PacketType::Unsuback, s[off])),
            Some(code) => spec_read_unsuback_codes(s, off + 1, acc.push(code)),
        }
    }
}

impl UnsubackView {
    /// The body: packet identifier, properties, then one byte for each
    /// reason code.
    pub open spec fn spec_bytes(self) -> Seq<u8> {
        spec_u16_bytes(self.pid) + spec_properties_bytes(self.properties) + self.topics.map_values(
            |c: UnsubscribeReasonCode| c.spec_to_u8(),
        )
    }

    /// The properties have an encoding.
    pub open spec fn fits(self) -> bool {
        spec_items_fit(self.properties)
    }

    /// The parser behind [`Unsuback::decode`]: the whole of `s` from `off` on is
    /// the body.
    pub open spec fn spec_decode(s: Seq<u8>, off: int) -> Result<(UnsubackView, int), ErrorV5View> {
        match spec_read_pid_properties(s, off, PropertyScope::Unsuback) {
            Err(e) => Err(e),
            Ok(((pid, properties), off1)) => match spec_read_unsuback_codes(s, off1, Seq::empty()) {
                Err(e) => Err(e),
                Ok((topics, end)) => Ok((UnsubackView { pid, properties, topics }, end)),
            },
        }
    }
}

impl Unsuback {
    /// An unsuback body without properties.
    pub fn new(pid: Pid, topics: Vec<UnsubscribeReasonCode>) -> (p: Unsuback)
        ensures
            p.pid == pid,
            p.topics == topics,
            p.properties@ == Seq::<PropertyView>::empty(),
    {
        Unsuback { pid, properties: Properties::new(), topics }
    }

    /// Reads the body of an unsuback packet: everything from `offset` to
    /// the end of `buf`. `InvalidReasonCode` for a byte outside the set of
    /// [`UnsubscribeReasonCode`].
    pub fn decode(buf: &[u8], offset: &mut usize) -> (res: Result<Unsuback, ErrorV5>)
        ensures
            read_agrees5(res, *final(offset), UnsubackView::spec_decode(buf@, *old(offset) as int)),
    {
        let (pid, properties) = read_pid_properties(buf, offset, PropertyScope::Unsuback)?;
        let ghost start = *offset as int;
        let mut topics: Vec<UnsubscribeReasonCode> = Vec::new();
        while *offset < buf.len()
            invariant
                spec_read_unsuback_codes(buf@, start, Seq::empty()) == spec_read_unsuback_codes(
                    buf@,
                    *offset as int,
                    topics@,
                ),
                UnsubackView::spec_decode(buf@, *old(offset) as int) == (match spec_read_unsuback_codes(
                    buf@,
                    start,
                    Seq::empty(),
                ) {
                    Err(e) => Err(e),
                    Ok((topics, end)) => Ok(
                        (UnsubackView { pid: pid@, properties: properties@, topics }, end),
                    ),
                }),
            decreases buf@.len() - *offset,
        {
            let byte: u8 = buf[*offset];
            let code = match UnsubscribeReasonCode::from_u8(byte) {
                Some(c) => c,
                None => {
                    return Err(ErrorV5::InvalidReasonCode(PacketType::Unsuback, byte));
                },
            };
            topics.push(code);
            *offset = *offset + 1;
        }
        Ok(Unsuback { pid, properties, topics })
    }

    /// Appends the body of the packet, or fails with `PayloadTooLong`,
    /// leaving `out` as it was, where the properties have no encoding.
    pub fn encode(&self, out: &mut Vec<u8>) -> (res: Result<(), ErrorV5>)
        ensures
            match res {
                Ok(_) => self@.fits() && final(out)@ == old(out)@ + self@.spec_bytes(),
                Err(e) => e == ErrorV5::Common(Error::PayloadTooLong) && !self@.fits() && final(out)@
                    == old(out)@,
            },
    {
        if self.properties.checked_len().is_none() {
            return Err(ErrorV5::Common(Error::PayloadTooLong));
        }
        write_u16(out, self.pid.value());
        let r = self.properties.encode(out);
        let ghost head = out@;
        let ghost codes = self.topics@.map_values(|c: UnsubscribeReasonCode| c.spec_to_u8());
        let mut i: usize = 0;
        assert(out@ =~= head + codes.subrange(0, 0));
        while i < self.topics.len()
            invariant
                i <= self.topics@.len(),
                codes == self.topics@.map_values(|c: UnsubscribeReasonCode| c.spec_to_u8()),
                out@ == head + codes.subrange(0, i as int),
            decreases self.topics@.len() - i,
        {
            write_u8(out, self.topics[i].to_u8());
            i = i + 1;
            assert(out@ =~= head + codes.subrange(0, i as int));
        }
        assert(codes.subrange(0, i as int) =~= codes);
        assert(out@ =~= old(out)@ + self@.spec_bytes());
        Ok(())
    }

    /// The number of bytes of the packet's body, if the properties have an
    /// encoding.
    pub fn encode_len(&self) -> (res: Result<usize, ErrorV5>)
        ensures
            match res {
                Ok(n) => self@.fits() && n == self@.spec_bytes().len(),
                Err(e) => e == ErrorV5::Common(Error::PayloadTooLong) && !self@.fits(),
            },
    {
        let mut scratch: Vec<u8> = Vec::new();
        self.encode(&mut scratch)?;
        assert(scratch@ =~= self@.spec_bytes());
        Ok(scratch.len())
    }
}

/// Reason code of one entry of an unsuback packet.
#[derive(Debug, Clone, Copy, PartialEq, Eq, Structural, Hash)]
pub enum UnsubscribeReasonCode {
    Success,
    NoSubscriptionExisted,
    UnspecifiedError,
    ImplementationSpecificError,
    NotAuthorized,
    TopicFilterInvalid,
    PacketIdentifierInUse,
}

impl View for UnsubscribeReasonCode {
    type V = UnsubscribeReasonCode;

    open spec fn view(&self) -> UnsubscribeReasonCode {
        *self
    }
}

impl UnsubscribeReasonCode {
    /// The code with the given byte, if the byte is one of this set.
    pub open spec fn spec_from_u8(value: u8) -> Option<UnsubscribeReasonCode> {
        match value {
            0x00 => Some(UnsubscribeReasonCode::Success),
            0x11 => Some(UnsubscribeReasonCode::NoSubscriptionExisted),
            0x80 => Some(UnsubscribeReasonCode::UnspecifiedError),
            0x83 => Some(UnsubscribeReasonCode::ImplementationSpecificError),
            0x87 => Some(UnsubscribeReasonCode::NotAuthorized),
            0x8F => Some(UnsubscribeReasonCode::TopicFilterInvalid),
            0x91 => Some(UnsubscribeReasonCode::PacketIdentifierInUse),
            _ => None,
        }
    }

    /// The code's byte on the wire.
    pub open spec fn spec_to_u8(self) -> u8 {
        match self {
            UnsubscribeReasonCode::Success => 0x00,
            UnsubscribeReasonCode::NoSubscriptionExisted => 0x11,
            UnsubscribeReasonCode::UnspecifiedError => 0x80,
            UnsubscribeReasonCode::ImplementationSpecificError => 0x83,
            UnsubscribeReasonCode::NotAuthorized => 0x87,
            UnsubscribeReasonCode::TopicFilterInvalid => 0x8F,
            UnsubscribeReasonCode::PacketIdentifierInUse => 0x91,
        }
    }

    /// The code with the given byte, if the byte is one of this set.
    pub fn from_u8(value: u8) -> (res: Option<UnsubscribeReasonCode>)
        ensures
            res == Self::spec_from_u8(value),
            res matches Some(c) ==> c.spec_to_u8() == value,
    {
        match value {
            0x00 => Some(UnsubscribeReasonCode::Success),
            0x11 => Some(UnsubscribeReasonCode::NoSubscriptionExisted),
            0x80 => Some(UnsubscribeReasonCode::UnspecifiedError),
            0x83 => Some(UnsubscribeReasonCode::ImplementationSpecificError),
            0x87 => Some(UnsubscribeReasonCode::NotAuthorized),
            0x8F => Some(UnsubscribeReasonCode::TopicFilterInvalid),
            0x91 => Some(UnsubscribeReasonCode::PacketIdentifierInUse),
            _ => None,
        }
    }

    /// The code's byte on the wire.
    #[verifier::when_used_as_spec(spec_to_u8)]
    pub fn to_u8(self) -> (b: u8)
        ensures
            b == self.spec_to_u8(),
            Self::spec_from_u8(b) == Some(self),
    {
        match self {
            UnsubscribeReasonCode::Success => 0x00,
            UnsubscribeReasonCode::NoSubscriptionExisted => 0x11,
            UnsubscribeReasonCode::UnspecifiedError => 0x80,
            UnsubscribeReasonCode::ImplementationSpecificError => 0x83,
            UnsubscribeReasonCode::NotAuthorized => 0x87,
            UnsubscribeReasonCode::TopicFilterInvalid => 0x8F,
            UnsubscribeReasonCode::PacketIdentifierInUse => 0x91,
        }
    }
}

} // verus!
