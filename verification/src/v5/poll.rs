//! The streaming assembler for 5.0 packets.

use crate::common::error::{Error, ErrorView};
use crate::common::poll::{
    lemma_raw_header_prefix, lemma_raw_header_truncated, lemma_raw_header_within,
    spec_announced_size, spec_concat, FrameState, PollView, Polled, DEFAULT_MAX_PACKET_SIZE,
    MAX_PACKET_SIZE,
};
use crate::common::utils::spec_decode_raw_header;
use crate::v5::error::{ErrorV5, ErrorV5View};
use crate::v5::header::Header;
use crate::v5::packet::{
    spec_decode_body, spec_decode_packet, spec_empty_packet, Packet, PacketView,
};
use vstd::prelude::*;

verus! {

/// The fixed header at the start of `s`, judged as soon as it is complete:
/// a malformed remaining length, an illegal first byte, a packet above the
/// ceiling. `None` where `s` ends inside it.
#[verifier::opaque]
pub open spec fn spec_poll_header(s: Seq<u8>, max_size: int) -> Result<
    Option<(Header, int)>,
    ErrorView,
> {
    match spec_decode_raw_header(s, 0) {
        Err(ErrorView::UnexpectedEof) => Ok(None),
        Err(e) => Err(e),
        Ok(((hd, len), start)) => match Header::spec_new_with(hd, len) {
            Err(e) => Err(e),
            Ok(h) => if start + len > max_size {
                Err(ErrorView::InvalidRemainingLength)
            } else {
                Ok(Some((h, start)))
            },
        },
    }
}

/// What the bytes `s`, received since the last packet, amount to for an
/// assembler with the given ceiling on a packet's size.
///
/// The fixed header is judged as soon as it is complete. A packet without a
/// body is ready with its header. Any other waits for its whole body, which
/// is then decoded once. A body whose own lengths reach beyond it is
/// malformed: `InvalidRemainingLength`.
pub open spec fn spec_poll(s: Seq<u8>, max_size: int) -> PollView<PacketView, ErrorV5View> {
    match spec_poll_header(s, max_size) {
        Err(e) => PollView::Failed(ErrorV5View::Common(e)),
        Ok(None) => PollView::NeedMore,
        Ok(Some((h, start))) => match spec_empty_packet(h) {
            Some(p) => PollView::Ready(p, start),
            None => if s.len() < start + h.remaining_len {
                PollView::NeedMore
            } else {
                match spec_decode_body(h, s.subrange(start, start + h.remaining_len)) {
                    Err(ErrorV5View::Common(ErrorView::UnexpectedEof)) => PollView::Failed(
                        ErrorV5View::Common(ErrorView::InvalidRemainingLength),
                    ),
                    Err(e) => PollView::Failed(e),
                    Ok(p) => PollView::Ready(p, start + h.remaining_len),
                }
            },
        },
    }
}

/// The state of an assembler: the packet in flight.
pub struct PollPacketState {
    frame: FrameState,
    max_size: usize,
    failed: Option<ErrorV5>,
}

/// Mathematical model of [`PollPacketState`].
pub struct PollPacketStateView {
    /// The bytes received since the last packet.
    pub pending: Seq<u8>,
    /// The ceiling on a packet's size.
    pub max_size: int,
    /// The error that the assembler failed with, if it did.
    pub failed: Option<ErrorV5View>,
}

impl View for PollPacketState {
    type V = PollPacketStateView;

    closed spec fn view(&self) -> PollPacketStateView {
        PollPacketStateView {
            pending: self.frame@,
            max_size: self.max_size as int,
            failed: match self.failed {
                Some(e) => Some(e@),
                None => None,
            },
        }
    }
}

impl PollPacketStateView {
    /// The bytes received are the beginning of a packet and no more, and the
    /// ceiling is one that a packet can reach.
    pub open spec fn wf(self) -> bool {
        &&& self.max_size <= MAX_PACKET_SIZE
        &&& self.failed is None ==> spec_poll(self.pending, self.max_size) is NeedMore
    }

    /// What [`PollPacketState::feed`] returns for `chunk`, and the state it
    /// leaves: the outcome, the number of bytes taken, the next state.
    pub open spec fn spec_feed(self, chunk: Seq<u8>) -> (
        PollView<PacketView, ErrorV5View>,
        PollPacketStateView,
    ) {
        match self.failed {
            Some(e) => (PollView::Failed(e), self),
            None => match spec_poll(self.pending + chunk, self.max_size) {
                PollView::Ready(p, n) => (
                    PollView::Ready(p, n - self.pending.len()),
                    PollPacketStateView {
                        pending: Seq::empty(),
                        max_size: self.max_size,
                        failed: None,
                    },
                ),
                PollView::NeedMore => (
                    PollView::NeedMore,
                    PollPacketStateView {
                        pending: self.pending + chunk,
                        max_size: self.max_size,
                        failed: None,
                    },
                ),
                PollView::Failed(e) => (
                    PollView::Failed(e),
                    PollPacketStateView {
                        pending: Seq::empty(),
                        max_size: self.max_size,
                        failed: Some(e),
                    },
                ),
            },
        }
    }
}

/// The outcome `res` of a call agrees with the model `out`.
pub open spec fn polled_agrees(
    res: Polled<Packet, ErrorV5>,
    out: PollView<PacketView, ErrorV5View>,
    chunk_len: int,
) -> bool {
    match out {
        PollView::Ready(p, n) => res matches Polled::Ready(q, k) && q@ == p && k == n && 0 <= n
            <= chunk_len,
        PollView::NeedMore => res matches Polled::NeedMore(k) && k == chunk_len,
        PollView::Failed(e) => res matches Polled::Error(x) && x@ == e,
    }
}

impl PollPacketState {
    /// An assembler with the default ceiling on a packet's size.
    pub fn new() -> (st: PollPacketState)
        ensures
            st@ == (PollPacketStateView {
                pending: Seq::empty(),
                max_size: DEFAULT_MAX_PACKET_SIZE as int,
                failed: None,
            }),
            st@.wf(),
    {
        proof {
            lemma_poll_nothing(DEFAULT_MAX_PACKET_SIZE as int);
        }
        PollPacketState { frame: FrameState::new(), max_size: DEFAULT_MAX_PACKET_SIZE, failed: None }
    }

    /// An assembler that refuses packets of more than `max_size` bytes, or
    /// of more than the protocol allows where that is less.
    pub fn with_max_size(max_size: usize) -> (st: PollPacketState)
        ensures
            st@ == (PollPacketStateView {
                pending: Seq::empty(),
                max_size: if max_size <= MAX_PACKET_SIZE {
                    max_size as int
                } else {
                    MAX_PACKET_SIZE as int
                },
                failed: None,
            }),
            st@.wf(),
    {
        let m: usize = if max_size <= MAX_PACKET_SIZE {
            max_size
        } else {
            MAX_PACKET_SIZE
        };
        proof {
            lemma_poll_nothing(m as int);
        }
        PollPacketState { frame: FrameState::new(), max_size: m, failed: None }
    }

    /// Forgets the packet in flight and any failure.
    pub fn reset(&mut self)
        requires
            old(self)@.wf(),
        ensures
            final(self)@ == (PollPacketStateView {
                pending: Seq::empty(),
                max_size: old(self)@.max_size,
                failed: None,
            }),
            final(self)@.wf(),
    {
        proof {
            lemma_poll_nothing(self.max_size as int);
        }
        self.frame.reset();
        self.failed = None;
    }

    /// Whether the assembler has failed.
    pub fn is_failed(&self) -> (b: bool)
        ensures
            b == (self@.failed is Some),
    {
        self.failed.is_some()
    }

    /// Records a failure and drops the bytes received.
    fn fail(&mut self, e: ErrorV5) -> (res: Polled<Packet, ErrorV5>)
        ensures
            res matches Polled::Error(x) && x@ == e@,
            final(self)@ == (PollPacketStateView {
                pending: Seq::empty(),
                max_size: old(self)@.max_size,
                failed: Some(e@),
            }),
    {
        self.frame.reset();
        self.failed = Some(e.duplicate());
        Polled::Error(e)
    }

    /// Takes bytes of `chunk` until the fixed header is complete, and
    /// judges it.
    #[verifier::rlimit(50)]
    fn take_header(&mut self, chunk: &[u8], pos: &mut usize) -> (res: Result<
        Option<(Header, usize)>,
        Error,
    >)
        requires
            *old(pos) == 0,
            old(self)@.failed is None,
        ensures
            *final(pos) <= chunk@.len(),
            final(self)@ == (PollPacketStateView {
                pending: old(self)@.pending + chunk@.subrange(0, *final(pos) as int),
                max_size: old(self)@.max_size,
                failed: None,
            }),
            match spec_poll_header(old(self)@.pending + chunk@, old(self)@.max_size) {
                Err(e) => res is Err && res->Err_0@ == e,
                Ok(None) => res == Ok::<Option<(Header, usize)>, Error>(None) && *final(pos)
                    == chunk@.len(),
                Ok(Some((h, start))) => res == Ok::<Option<(Header, usize)>, Error>(
                    Some((h, start as usize)),
                ) && 0 <= start <= final(self)@.pending.len() && (*final(pos) > 0
                    ==> final(self)@.pending.len() == start) && start + h.remaining_len
                    <= old(self)@.max_size && spec_poll_header(
                    final(self)@.pending,
                    old(self)@.max_size,
                ) == spec_poll_header(old(self)@.pending + chunk@, old(self)@.max_size),
            },
    {
        reveal(spec_poll_header);
        let ghost all = self.frame@ + chunk@;
        let fed = self.frame.feed_header(chunk, pos);
        proof {
            assert(all.subrange(0, self.frame@.len() as int) =~= self.frame@);
            if *pos == chunk@.len() {
                assert(chunk@.subrange(0, *pos as int) =~= chunk@);
            }
            if !(fed matches Ok(None)) {
                lemma_raw_header_prefix(self.frame@, all);
            }
        }
        let (hd, len, start) = match fed {
            Err(e) => {
                return Err(e);
            },
            Ok(None) => {
                return Ok(None);
            },
            Ok(Some(x)) => x,
        };
        let header = Header::new_with(hd, len)?;
        let total: usize = start + len as usize;
        if total > self.max_size {
            return Err(Error::InvalidRemainingLength);
        }
        Ok(Some((header, start)))
    }

    /// Takes the next chunk of the stream. The outcome is that of all bytes
    /// received since the last packet, however they were cut into chunks:
    /// a packet, with the number of bytes of `chunk` that belong to it; a
    /// demand for more, with the whole chunk taken; or the packet's error,
    /// after which every call fails with the same error.
    #[verifier::rlimit(50)]
    pub fn feed(&mut self, chunk: &[u8]) -> (res: Polled<Packet, ErrorV5>)
        requires
            old(self)@.wf(),
        ensures
            polled_agrees(res, old(self)@.spec_feed(chunk@).0, chunk@.len() as int),
            final(self)@ == old(self)@.spec_feed(chunk@).1,
            final(self)@.wf(),
    {
        match &self.failed {
            Some(e) => {
                return Polled::Error(e.duplicate());
            },
            None => {},
        }
        let ghost before = self.frame@;
        let ghost all = self.frame@ + chunk@;
        let mut pos: usize = 0;
        proof {
            lemma_poll_nothing(self.max_size as int);
        }
        let (header, start) = match self.take_header(chunk, &mut pos) {
            Err(e) => {
                return self.fail(ErrorV5::Common(e));
            },
            Ok(None) => {
                assert(chunk@.subrange(0, pos as int) =~= chunk@);
                return Polled::NeedMore(pos);
            },
            Ok(Some(x)) => x,
        };
        proof {
            if pos == 0 {
                assert(self.frame@ =~= before);
            }
        }
        match header.build_empty_packet() {
            Some(p) => {
                self.frame.reset();
                return Polled::Ready(p, pos);
            },
            None => {},
        }
        let total: usize = start + header.remaining_len();
        let ghost mid = pos;
        let complete = self.frame.feed_body(chunk, &mut pos, total);
        proof {
            assert(self.frame@ =~= before + chunk@.subrange(0, pos as int)) by {
                assert(chunk@.subrange(0, mid as int) + chunk@.subrange(mid as int, pos as int)
                    =~= chunk@.subrange(0, pos as int));
            }
            if pos == chunk@.len() {
                assert(chunk@.subrange(0, pos as int) =~= chunk@);
            }
        }
        if !complete {
            return Polled::NeedMore(pos);
        }
        proof {
            assert(self.frame@.subrange(start as int, total as int) =~= all.subrange(
                start as int,
                total as int,
            ));
        }
        let decoded = header.decode_buffer(self.frame.tail(start));
        match decoded {
            Ok(p) => {
                self.frame.reset();
                Polled::Ready(p, pos)
            },
            Err(e) => {
                if e.is_eof() {
                    self.fail(ErrorV5::Common(Error::InvalidRemainingLength))
                } else {
                    self.fail(e)
                }
            },
        }
    }
}

/// Where the slice decoder finds a whole packet, the assembler finds the same
/// packet of the same length, unless the size that the header announces is
/// above its ceiling.
#[verifier::rlimit(50)]
pub proof fn lemma_decode_implies_poll(b: Seq<u8>, max_size: int)
    requires
        spec_decode_packet(b) matches Ok(Some(_)),
        spec_announced_size(b) <= max_size,
    ensures
        spec_poll(b, max_size) == PollView::<PacketView, ErrorV5View>::Ready(
            spec_decode_packet(b)->Ok_0->Some_0.0,
            spec_decode_packet(b)->Ok_0->Some_0.1,
        ),
{
    reveal(spec_poll_header);
    reveal(spec_decode_body);
}

/// Truncation is safe: of the bytes of one whole packet, every proper
/// beginning is no packet yet and no error, for the slice decoder and for
/// the assembler alike.
#[verifier::rlimit(50)]
pub proof fn lemma_truncation(b: Seq<u8>, k: int, max_size: int)
    requires
        spec_decode_packet(b) matches Ok(Some((p, n))) && n == b.len(),
        0 <= k < b.len(),
        spec_announced_size(b) <= max_size,
    ensures
        spec_decode_packet(b.subrange(0, k)) == Ok::<Option<(PacketView, int)>, ErrorV5View>(None),
        spec_poll(b.subrange(0, k), max_size) is NeedMore,
{
    reveal(spec_poll_header);
    let s = b.subrange(0, k);
    assert(b.subrange(0, s.len() as int) == s);
    let start = spec_decode_raw_header(b, 0)->Ok_0.1;
    if k < start {
        lemma_raw_header_truncated(s, b);
    } else {
        lemma_raw_header_within(s, b);
    }
}

/// What feeding the chunks one after the other gives, up to the first
/// packet or error: the outcome of the last call, with the number of bytes
/// of its chunk that it took, and the number of bytes taken in all.
pub open spec fn spec_feed_chunks(st: PollPacketStateView, chunks: Seq<Seq<u8>>) -> (
    PollView<PacketView, ErrorV5View>,
    int,
)
    decreases chunks.len(),
{
    if chunks.len() == 0 {
        (PollView::NeedMore, 0)
    } else {
        match st.spec_feed(chunks[0]) {
            (PollView::NeedMore, next) => {
                let rest = spec_feed_chunks(next, chunks.drop_first());
                (rest.0, chunks[0].len() + rest.1)
            },
            (PollView::Ready(p, n), _) => (PollView::Ready(p, n), n),
            (PollView::Failed(e), _) => (PollView::Failed(e), 0),
        }
    }
}

/// Streaming is equivalent to decoding a slice: however the bytes of a whole
/// packet are cut into chunks, feeding the chunks gives the packet that the
/// slice decoder gives, and takes the same number of bytes.
#[verifier::rlimit(50)]
pub proof fn lemma_streaming_equivalence(st: PollPacketStateView, chunks: Seq<Seq<u8>>)
    requires
        st.wf(),
        st.failed is None,
        spec_decode_packet(st.pending + spec_concat(chunks)) matches Ok(Some((p, n))) && n == (
        st.pending + spec_concat(chunks)).len(),
        spec_announced_size(st.pending + spec_concat(chunks)) <= st.max_size,
    ensures
        spec_feed_chunks(st, chunks).0 matches PollView::Ready(p, _) && p == spec_decode_packet(
            st.pending + spec_concat(chunks),
        )->Ok_0->Some_0.0,
        spec_feed_chunks(st, chunks).1 == spec_concat(chunks).len(),
    decreases chunks.len(),
{
    let b = st.pending + spec_concat(chunks);
    lemma_decode_implies_poll(b, st.max_size);
    if chunks.len() == 0 {
        assert(b =~= st.pending);
    } else {
        let first = st.pending + chunks[0];
        let rest = chunks.drop_first();
        assert(b =~= first + spec_concat(rest));
        if first.len() < b.len() {
            assert(b.subrange(0, first.len() as int) =~= first);
            lemma_truncation(b, first.len() as int, st.max_size);
            let next = st.spec_feed(chunks[0]).1;
            lemma_streaming_equivalence(next, rest);
        } else {
            assert(spec_concat(rest).len() == 0);
            assert(b =~= first);
        }
    }
}

/// Nothing received is the beginning of a packet.
#[verifier::rlimit(50)]
pub proof fn lemma_poll_nothing(max_size: int)
    ensures
        spec_poll(Seq::empty(), max_size) is NeedMore,
{
    reveal(spec_poll_header);
}

} // verus!
