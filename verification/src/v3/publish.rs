//! Publish.

use crate::common::error::{read_agrees, Error, ErrorView};
use crate::common::outside::{bytes_as_slice, bytes_contents, bytes_from_slice};
use crate::common::topic::{spec_topic_name, TopicName};
use crate::common::types::{read_qos_pid, spec_read_qos_pid, QosPid, QosPidView};
use crate::common::utils::{
    read_string, spec_read_string, spec_string_bytes, write_raw, write_string, write_u16,
};
use crate::v3::header::Header;
use bytes::Bytes;
use vstd::prelude::*;
use vstd::slice::slice_subrange;

verus! {

/// Body of a publish packet, with the flags of its fixed header.
#[derive(Debug, Clone, PartialEq, Eq)]
pub struct Publish {
    pub dup: bool,
    pub retain: bool,
    pub qos_pid: QosPid,
    pub topic_name: TopicName,
    pub payload: Bytes,
}

/// Mathematical model of [`Publish`].
pub struct PublishView {
    pub dup: bool,
    pub retain: bool,
    pub qos_pid: QosPidView,
    pub topic_name: Seq<char>,
    pub payload: Seq<u8>,
}

impl View for Publish {
    type V = PublishView;

    open spec fn view(&self) -> PublishView {
        PublishView {
            dup: self.dup,
            retain: self.retain,
            qos_pid: self.qos_pid@,
            topic_name: self.topic_name@,
            payload: bytes_contents(self.payload),
        }
    }
}

impl PublishView {
    /// The body: topic name, packet identifier above quality of service 0,
    /// then the payload as it is.
    pub open spec fn spec_bytes(self) -> Seq<u8> {
        spec_string_bytes(self.topic_name) + self.qos_pid.pid_bytes() + self.payload
    }

    /// A publish packet that can be carried: a topic name that obeys the
    /// grammar and a nonzero packet identifier.
    pub open spec fn wf(self) -> bool {
        &&& spec_topic_name(self.topic_name) is Ok
        &&& self.qos_pid.wf()
    }

    /// The parser behind [`Publish::decode`]: the whole of `s` from `off` on
    /// is the body.
    pub open spec fn spec_decode(s: Seq<u8>, off: int, header: Header) -> Result<
        (PublishView, int),
        ErrorView,
    > {
        match spec_read_string(s, off) {
            Err(e) => Err(e),
            Ok((text, off1)) => match spec_read_qos_pid(s, off1, header.qos) {
                Err(e) => Err(e),
                Ok((qos_pid, off2)) => match spec_topic_name(text) {
                    Err(e) => Err(e),
                    Ok(topic_name) => Ok(
                        (
                            PublishView {
                                dup: header.dup,
                                retain: header.retain,
                                qos_pid,
                                topic_name,
                                payload: s.subrange(off2, s.len() as int),
                            },
                            s.len() as int,
                        ),
                    ),
                },
            },
        }
    }
}

impl Publish {
    /// A publish packet with neither dup nor retain.
    pub fn new(qos_pid: QosPid, topic_name: TopicName, payload: Bytes) -> (p: Publish)
        ensures
            p@ == (PublishView {
                dup: false,
                retain: false,
                qos_pid: qos_pid@,
                topic_name: topic_name@,
                payload: bytes_contents(payload),
            }),
    {
        Publish { dup: false, retain: false, qos_pid, topic_name, payload }
    }

    /// Reads the body of a publish packet: everything from `offset` to the
    /// end of `buf`. Dup, quality of service and retain come from `header`.
    pub fn decode(buf: &[u8], offset: &mut usize, header: Header) -> (res: Result<Publish, Error>)
        ensures
            read_agrees(
                res,
                *final(offset),
                PublishView::spec_decode(buf@, *old(offset) as int, header),
            ),
            res matches Ok(p) ==> p@.wf(),
    {
        let text = read_string(buf, offset)?;
        let qos_pid = read_qos_pid(buf, offset, header.qos)?;
        let topic_name = TopicName::from_string(text)?;
        let start: usize = *offset;
        let payload = bytes_from_slice(slice_subrange(buf, start, buf.len()));
        *offset = buf.len();
        Ok(Publish { dup: header.dup, retain: header.retain, qos_pid, topic_name, payload })
    }

    /// Appends the body of the packet.
    pub fn encode(&self, out: &mut Vec<u8>)
        ensures
            final(out)@ == old(out)@ + self@.spec_bytes(),
    {
        let r = write_string(out, self.topic_name.as_str());
        match self.qos_pid {
            QosPid::Level0 => {},
            QosPid::Level1(pid) => {
                write_u16(out, pid.value());
            },
            QosPid::Level2(pid) => {
                write_u16(out, pid.value());
            },
        }
        write_raw(out, bytes_as_slice(&self.payload));
        assert(out@ =~= old(out)@ + self@.spec_bytes());
    }

    /// The number of bytes of the packet's body.
    pub fn encode_len(&self) -> (n: usize)
        requires
            self@.spec_bytes().len() <= usize::MAX,
        ensures
            n == self@.spec_bytes().len(),
    {
        let mut len: usize = 2 + self.topic_name.len();
        match self.qos_pid {
            QosPid::Level0 => {},
            QosPid::Level1(_) => {
                len = len + 2;
            },
            QosPid::Level2(_) => {
                len = len + 2;
            },
        }
        len = len + bytes_as_slice(&self.payload).len();
        len
    }
}

} // verus!
